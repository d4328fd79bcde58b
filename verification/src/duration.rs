//! Duration accounting over an execution's event log: active, paused and
//! blocked time, lead time (first start to completion) and waiting time
//! (creation to first start).
//!
//! Events that move an execution to IN_PROGRESS (STARTED, RESUMED, and an
//! UNBLOCKED whose recorded new status is IN_PROGRESS) open an active
//! interval; PAUSED, BLOCKED and COMPLETED close it. UNBLOCKED closes the
//! blocked interval; back to READY (or with no recorded status) it opens no
//! active one.

use vstd::prelude::*;
use crate::entities::{EventType, ProcessStatus};

verus! {

pub const NANOS_PER_SEC: i128 = 1_000_000_000;

/// An instant: whole seconds since the Unix epoch and the nanoseconds past
/// that second.
#[derive(Debug, Clone, Copy, PartialEq, Eq, Structural)]
pub struct Moment {
    pub secs: i64,
    pub nanos: u32,
}

/// Instants within the calendar range of the timestamps this system stores,
/// with a nanosecond part below two seconds (a leap second is carried as a
/// nanosecond part of one second or more).
pub open spec fn valid_moment(m: Moment) -> bool {
    &&& m.nanos < 2_000_000_000
    &&& -0x1000_0000_0000 <= m.secs <= 0x1000_0000_0000
}

/// Nanoseconds from `from` to `to` (negative when `to` is earlier).
pub open spec fn nanos_between(from: Moment, to: Moment) -> int {
    (to.secs - from.secs) * 1_000_000_000 + (to.nanos - from.nanos)
}

/// Whole seconds from `from` to `to`, never negative: the difference
/// truncated toward zero, and zero when `to` is not later than `from`.
pub open spec fn elapsed(from: Moment, to: Moment) -> int {
    let n = nanos_between(from, to);
    if n > 0 {
        n / 1_000_000_000
    } else {
        0
    }
}

fn elapsed_seconds(from: Moment, to: Moment) -> (r: i64)
    requires
        valid_moment(from),
        valid_moment(to),
    ensures
        r == elapsed(from, to),
        0 <= r <= 0x2000_0000_0002,
{
    let n: i128 = (to.secs as i128 - from.secs as i128) * NANOS_PER_SEC + (to.nanos as i128
        - from.nanos as i128);
    if n > 0 {
        let q = n / NANOS_PER_SEC;
        proof {
            let bound: int = 0x2000_0000_0002int * 1_000_000_000int;
            vstd::arithmetic::div_mod::lemma_div_is_ordered(n as int, bound, 1_000_000_000);
            assert(bound / 1_000_000_000 == 0x2000_0000_0002);
        }
        q as i64
    } else {
        0
    }
}

/// One entry of the event log: its kind and when it happened.
#[derive(Debug, Clone, Copy, PartialEq, Eq, Structural)]
pub struct TimedEvent {
    pub event_type: EventType,
    pub timestamp: Moment,
    /// The status the event moved the execution to, when it records one.
    pub new_status: Option<ProcessStatus>,
}

/// The duration breakdown of an execution, in seconds.
#[derive(Debug, Clone, Copy, PartialEq, Eq, Structural)]
pub struct Durations {
    /// Working time, excluding paused and blocked time.
    pub active_seconds: i64,
    /// Total time spent paused.
    pub paused_seconds: i64,
    /// Total time spent blocked.
    pub blocked_seconds: i64,
    /// First start to completion, everything included.
    pub lead_seconds: Option<i64>,
    /// Creation (or readiness) to first start.
    pub waiting_seconds: Option<i64>,
}

/// Running totals and open intervals while reading the event log.
pub struct Tally {
    pub active: int,
    pub paused: int,
    pub blocked: int,
    pub active_since: Option<Moment>,
    pub paused_since: Option<Moment>,
    pub blocked_since: Option<Moment>,
    pub first_created: Option<Moment>,
    pub first_started: Option<Moment>,
    pub last_completed: Option<Moment>,
}

pub open spec fn empty_tally() -> Tally {
    Tally {
        active: 0,
        paused: 0,
        blocked: 0,
        active_since: None,
        paused_since: None,
        blocked_since: None,
        first_created: None,
        first_started: None,
        last_completed: None,
    }
}

/// `total` plus the length of the interval opened at `since`, if open.
pub open spec fn close_interval(total: int, since: Option<Moment>, t: Moment) -> int {
    match since {
        Some(s) => total + elapsed(s, t),
        None => total,
    }
}

pub open spec fn keep_first(first: Option<Moment>, t: Moment) -> Option<Moment> {
    match first {
        Some(f) => Some(f),
        None => Some(t),
    }
}

/// Events that change no interval: they only mark when the execution first
/// appeared.
pub open spec fn is_marker_event(k: EventType) -> bool {
    match k {
        EventType::Created | EventType::Ready | EventType::Assigned | EventType::NoteAdded
        | EventType::FileAdded | EventType::AssigneeChanged | EventType::PlannedDateChanged
        | EventType::Reopened => true,
        _ => false,
    }
}

/// The effect of one event on the tally.
pub open spec fn tally_step(t: Tally, e: TimedEvent) -> Tally {
    let at = e.timestamp;
    if is_marker_event(e.event_type) {
        Tally { first_created: keep_first(t.first_created, at), ..t }
    } else {
        match e.event_type {
            EventType::Started | EventType::Resumed => Tally {
                paused: close_interval(t.paused, t.paused_since, at),
                paused_since: None,
                blocked: close_interval(t.blocked, t.blocked_since, at),
                blocked_since: None,
                active_since: Some(at),
                first_started: keep_first(t.first_started, at),
                ..t
            },
            EventType::Paused => Tally {
                active: close_interval(t.active, t.active_since, at),
                active_since: None,
                paused_since: Some(at),
                ..t
            },
            EventType::Blocked => Tally {
                active: close_interval(t.active, t.active_since, at),
                active_since: None,
                blocked_since: Some(at),
                ..t
            },
            EventType::Unblocked => Tally {
                blocked: close_interval(t.blocked, t.blocked_since, at),
                blocked_since: None,
                active_since: if e.new_status == Some(ProcessStatus::InProgress) {
                    Some(at)
                } else {
                    t.active_since
                },
                ..t
            },
            EventType::Completed => Tally {
                active: close_interval(t.active, t.active_since, at),
                active_since: None,
                paused: close_interval(t.paused, t.paused_since, at),
                paused_since: None,
                blocked: close_interval(t.blocked, t.blocked_since, at),
                blocked_since: None,
                last_completed: Some(at),
                ..t
            },
            _ => Tally { active_since: None, paused_since: None, blocked_since: None, ..t },
        }
    }
}

/// The tally after reading `events` in order, starting from `t`.
pub open spec fn tally_from(t: Tally, events: Seq<TimedEvent>) -> Tally
    decreases events.len(),
{
    if events.len() == 0 {
        t
    } else {
        tally_step(tally_from(t, events.drop_last()), events.last())
    }
}

/// The breakdown in exact integers.
pub struct SpecDurations {
    pub active: int,
    pub paused: int,
    pub blocked: int,
    pub lead: Option<int>,
    pub waiting: Option<int>,
}

/// Open intervals are counted up to `now`.
pub open spec fn finish(t: Tally, now: Moment) -> SpecDurations {
    SpecDurations {
        active: close_interval(t.active, t.active_since, now),
        paused: close_interval(t.paused, t.paused_since, now),
        blocked: close_interval(t.blocked, t.blocked_since, now),
        lead: match (t.first_started, t.last_completed) {
            (Some(s), Some(c)) => Some(elapsed(s, c)),
            _ => None,
        },
        waiting: match (t.first_created, t.first_started) {
            (Some(c), Some(s)) => Some(elapsed(c, s)),
            _ => None,
        },
    }
}

/// The duration breakdown of an event log, with open intervals running until
/// `now`.
pub open spec fn spec_durations(events: Seq<TimedEvent>, now: Moment) -> SpecDurations {
    finish(tally_from(empty_tally(), events), now)
}

/// All instants are valid.
pub open spec fn events_valid(events: Seq<TimedEvent>) -> bool {
    forall|i: int| 0 <= i < events.len() ==> valid_moment(#[trigger] events[i].timestamp)
}

/// The totals fit the 64-bit result fields.
pub open spec fn durations_fit(events: Seq<TimedEvent>, now: Moment) -> bool {
    let d = spec_durations(events, now);
    &&& d.active <= i64::MAX
    &&& d.paused <= i64::MAX
    &&& d.blocked <= i64::MAX
}

pub open spec fn option_matches(x: Option<i64>, y: Option<int>) -> bool {
    match (x, y) {
        (Some(a), Some(b)) => a == b,
        (None, None) => true,
        _ => false,
    }
}

pub open spec fn tally_nonneg(t: Tally) -> bool {
    t.active >= 0 && t.paused >= 0 && t.blocked >= 0
}

proof fn lemma_step_monotone(t: Tally, e: TimedEvent)
    ensures
        tally_step(t, e).active >= t.active,
        tally_step(t, e).paused >= t.paused,
        tally_step(t, e).blocked >= t.blocked,
{
}

/// The totals never decrease as more of the log is read.
proof fn lemma_prefix_totals_bounded(events: Seq<TimedEvent>, i: int)
    requires
        0 <= i <= events.len(),
    ensures
        tally_from(empty_tally(), events.take(i)).active <= tally_from(empty_tally(), events).active,
        tally_from(empty_tally(), events.take(i)).paused <= tally_from(empty_tally(), events).paused,
        tally_from(empty_tally(), events.take(i)).blocked <= tally_from(empty_tally(), events).blocked,
    decreases events.len(),
{
    if i == events.len() {
        assert(events.take(i) =~= events);
    } else {
        let rest = events.drop_last();
        assert(events.take(i) =~= rest.take(i));
        lemma_prefix_totals_bounded(rest, i);
        lemma_step_monotone(tally_from(empty_tally(), rest), events.last());
    }
}

proof fn lemma_tally_nonneg(t: Tally, events: Seq<TimedEvent>)
    requires
        tally_nonneg(t),
    ensures
        tally_nonneg(tally_from(t, events)),
    decreases events.len(),
{
    if events.len() > 0 {
        lemma_tally_nonneg(t, events.drop_last());
        lemma_step_monotone(tally_from(t, events.drop_last()), events.last());
    }
}

fn add_or_none(a: i64, b: i64) -> (r: Option<i64>)
    requires
        a >= 0,
        b >= 0,
    ensures
        r == if a + b <= i64::MAX { Some((a + b) as i64) } else { None::<i64> },
{
    a.checked_add(b)
}

fn moment_valid(m: Moment) -> (r: bool)
    ensures
        r == valid_moment(m),
{
    m.nanos < 2_000_000_000 && -0x1000_0000_0000 <= m.secs && m.secs <= 0x1000_0000_0000
}

fn moments_valid(events: &[TimedEvent]) -> (r: bool)
    ensures
        r == events_valid(events@),
{
    let mut i: usize = 0;
    while i < events.len()
        invariant
            i <= events@.len(),
            forall|k: int| 0 <= k < i ==> valid_moment(#[trigger] events@[k].timestamp),
        decreases events@.len() - i,
    {
        if !moment_valid(events[i].timestamp) {
            return false;
        }
        i = i + 1;
    }
    true
}

/// The final figures are at least the totals of any prefix of the log.
proof fn lemma_final_dominates(events: Seq<TimedEvent>, k: int, now: Moment)
    requires
        0 <= k <= events.len(),
    ensures
        spec_durations(events, now).active >= tally_from(empty_tally(), events.take(k)).active,
        spec_durations(events, now).paused >= tally_from(empty_tally(), events.take(k)).paused,
        spec_durations(events, now).blocked >= tally_from(empty_tally(), events.take(k)).blocked,
{
    lemma_prefix_totals_bounded(events, k);
}

/// The duration breakdown of an execution's event log; intervals still open
/// at the end run until `now`.
pub fn compute_durations(events: &[TimedEvent], now: Moment) -> (d: Durations)
    requires
        events_valid(events@),
        valid_moment(now),
        durations_fit(events@, now),
    ensures
        d.active_seconds == spec_durations(events@, now).active,
        d.paused_seconds == spec_durations(events@, now).paused,
        d.blocked_seconds == spec_durations(events@, now).blocked,
        option_matches(d.lead_seconds, spec_durations(events@, now).lead),
        option_matches(d.waiting_seconds, spec_durations(events@, now).waiting),
{
    match try_compute_durations(events, now) {
        Some(d) => d,
        None => {
            assert(false);
            Durations { active_seconds: 0, paused_seconds: 0, blocked_seconds: 0, lead_seconds: None, waiting_seconds: None }
        },
    }
}

/// Seconds in a day.
pub const SECS_PER_DAY: i64 = 86400;

/// The start (00:00:00 UTC) of the day of `m`.
pub fn day_start(m: Moment) -> (r: Moment)
    requires
        m.secs - m.secs % 86400 >= i64::MIN,
    ensures
        r.secs == m.secs - m.secs % 86400,
        r.nanos == 0,
{
    let rem: i64 = match m.secs.checked_rem_euclid(SECS_PER_DAY) {
        Some(x) => x,
        None => 0,
    };
    Moment { secs: m.secs - rem, nanos: 0 }
}

/// The duration breakdown of an event log when every instant is valid and
/// the totals fit 64 bits; `None` otherwise.
pub fn try_compute_durations(events: &[TimedEvent], now: Moment) -> (r: Option<Durations>)
    ensures
        r is Some <==> (events_valid(events@) && valid_moment(now) && durations_fit(events@, now)),
        r matches Some(d) ==> {
            &&& d.active_seconds == spec_durations(events@, now).active
            &&& d.paused_seconds == spec_durations(events@, now).paused
            &&& d.blocked_seconds == spec_durations(events@, now).blocked
            &&& option_matches(d.lead_seconds, spec_durations(events@, now).lead)
            &&& option_matches(d.waiting_seconds, spec_durations(events@, now).waiting)
        },
{
    if !moments_valid(events) || !moment_valid(now) {
        return None;
    }
    let ghost all = events@;
    let n = events.len();
    let mut active: i64 = 0;
    let mut paused: i64 = 0;
    let mut blocked: i64 = 0;
    let mut active_since: Option<Moment> = None;
    let mut paused_since: Option<Moment> = None;
    let mut blocked_since: Option<Moment> = None;
    let mut first_created: Option<Moment> = None;
    let mut first_started: Option<Moment> = None;
    let mut last_completed: Option<Moment> = None;
    let ghost final_tally = tally_from(empty_tally(), all);
    proof {
        lemma_tally_nonneg(empty_tally(), all);
        assert(all.take(0) =~= Seq::<TimedEvent>::empty());
    }
    let mut i: usize = 0;
    while i < n
        invariant
            n == all.len(),
            all == events@,
            i <= n,
            events_valid(all),
            valid_moment(now),
            final_tally == tally_from(empty_tally(), all),
            ({
                let t = tally_from(empty_tally(), all.take(i as int));
                &&& active == t.active
                &&& paused == t.paused
                &&& blocked == t.blocked
                &&& active_since == t.active_since
                &&& paused_since == t.paused_since
                &&& blocked_since == t.blocked_since
                &&& first_created == t.first_created
                &&& first_started == t.first_started
                &&& last_completed == t.last_completed
                &&& tally_nonneg(t)
                &&& (t.active_since matches Some(m) ==> valid_moment(m))
                &&& (t.paused_since matches Some(m) ==> valid_moment(m))
                &&& (t.blocked_since matches Some(m) ==> valid_moment(m))
                &&& (t.first_created matches Some(m) ==> valid_moment(m))
                &&& (t.first_started matches Some(m) ==> valid_moment(m))
                &&& (t.last_completed matches Some(m) ==> valid_moment(m))
            }),
        decreases n - i,
    {
        let e = events[i];
        let t = e.timestamp;
        let ghost before = tally_from(empty_tally(), all.take(i as int));
        let ghost after = tally_step(before, e);
        proof {
            assert(all.take(i + 1).drop_last() =~= all.take(i as int));
            assert(all.take(i + 1).last() == e);
            assert(tally_from(empty_tally(), all.take(i + 1)) == after);
            lemma_prefix_totals_bounded(all, i + 1);
            lemma_step_monotone(before, e);
            assert(valid_moment(all[i as int].timestamp));
            lemma_final_dominates(all, i + 1, now);
        }
        match e.event_type {
            EventType::Created | EventType::Ready | EventType::Assigned | EventType::NoteAdded
            | EventType::FileAdded | EventType::AssigneeChanged | EventType::PlannedDateChanged
            | EventType::Reopened => {
                if first_created.is_none() {
                    first_created = Some(t);
                }
            },
            EventType::Started | EventType::Resumed => {
                if let Some(since) = paused_since {
                    paused = match add_or_none(paused, elapsed_seconds(since, t)) {
                        Some(v) => v,
                        None => {
                            return None;
                        },
                    };
                }
                paused_since = None;
                if let Some(since) = blocked_since {
                    blocked = match add_or_none(blocked, elapsed_seconds(since, t)) {
                        Some(v) => v,
                        None => {
                            return None;
                        },
                    };
                }
                blocked_since = None;
                active_since = Some(t);
                if first_started.is_none() {
                    first_started = Some(t);
                }
            },
            EventType::Paused => {
                if let Some(since) = active_since {
                    active = match add_or_none(active, elapsed_seconds(since, t)) {
                        Some(v) => v,
                        None => {
                            return None;
                        },
                    };
                }
                active_since = None;
                paused_since = Some(t);
            },
            EventType::Blocked => {
                if let Some(since) = active_since {
                    active = match add_or_none(active, elapsed_seconds(since, t)) {
                        Some(v) => v,
                        None => {
                            return None;
                        },
                    };
                }
                active_since = None;
                blocked_since = Some(t);
            },
            EventType::Unblocked => {
                if let Some(since) = blocked_since {
                    blocked = match add_or_none(blocked, elapsed_seconds(since, t)) {
                        Some(v) => v,
                        None => {
                            return None;
                        },
                    };
                }
                blocked_since = None;
                match e.new_status {
                    Some(ProcessStatus::InProgress) => {
                        active_since = Some(t);
                    },
                    _ => {},
                }
            },
            EventType::Completed => {
                if let Some(since) = active_since {
                    active = match add_or_none(active, elapsed_seconds(since, t)) {
                        Some(v) => v,
                        None => {
                            return None;
                        },
                    };
                }
                active_since = None;
                if let Some(since) = paused_since {
                    paused = match add_or_none(paused, elapsed_seconds(since, t)) {
                        Some(v) => v,
                        None => {
                            return None;
                        },
                    };
                }
                paused_since = None;
                if let Some(since) = blocked_since {
                    blocked = match add_or_none(blocked, elapsed_seconds(since, t)) {
                        Some(v) => v,
                        None => {
                            return None;
                        },
                    };
                }
                blocked_since = None;
                last_completed = Some(t);
            },
            EventType::Cancelled => {
                active_since = None;
                paused_since = None;
                blocked_since = None;
            },
        }
        i = i + 1;
    }
    proof {
        assert(all.take(n as int) =~= all);
        lemma_final_dominates(all, n as int, now);
    }
    if let Some(since) = active_since {
        active = match add_or_none(active, elapsed_seconds(since, now)) {
            Some(v) => v,
            None => {
                return None;
            },
        };
    }
    if let Some(since) = paused_since {
        paused = match add_or_none(paused, elapsed_seconds(since, now)) {
            Some(v) => v,
            None => {
                return None;
            },
        };
    }
    if let Some(since) = blocked_since {
        blocked = match add_or_none(blocked, elapsed_seconds(since, now)) {
            Some(v) => v,
            None => {
                return None;
            },
        };
    }
    let lead_seconds = match (first_started, last_completed) {
        (Some(start), Some(end)) => Some(elapsed_seconds(start, end)),
        _ => None,
    };
    let waiting_seconds = match (first_created, first_started) {
        (Some(created), Some(started)) => Some(elapsed_seconds(created, started)),
        _ => None,
    };
    Some(Durations {
        active_seconds: active,
        paused_seconds: paused,
        blocked_seconds: blocked,
        lead_seconds,
        waiting_seconds,
    })
}

/// Every figure of the breakdown is non-negative.
pub proof fn lemma_durations_nonnegative(events: Seq<TimedEvent>, now: Moment)
    ensures
        spec_durations(events, now).active >= 0,
        spec_durations(events, now).paused >= 0,
        spec_durations(events, now).blocked >= 0,
        spec_durations(events, now).lead matches Some(l) ==> l >= 0,
        spec_durations(events, now).waiting matches Some(w) ==> w >= 0,
{
    lemma_tally_nonneg(empty_tally(), events);
}

pub open spec fn is_start_event(k: EventType) -> bool {
    k == EventType::Started || k == EventType::Resumed
}

proof fn lemma_first_and_last_marks(events: Seq<TimedEvent>)
    ensures
        tally_from(empty_tally(), events).first_started is Some <==> exists|i: int|
            0 <= i < events.len() && is_start_event(#[trigger] events[i].event_type),
        tally_from(empty_tally(), events).last_completed is Some <==> exists|i: int|
            0 <= i < events.len() && #[trigger] events[i].event_type == EventType::Completed,
        tally_from(empty_tally(), events).first_created is Some <==> exists|i: int|
            0 <= i < events.len() && is_marker_event(#[trigger] events[i].event_type),
    decreases events.len(),
{
    if events.len() > 0 {
        let rest = events.drop_last();
        lemma_first_and_last_marks(rest);
        assert forall|i: int| 0 <= i < rest.len() implies #[trigger] rest[i] == events[i] by {}
        let last = events.len() - 1;
        if exists|i: int| 0 <= i < events.len() && is_start_event(#[trigger] events[i].event_type) {
            let i = choose|i: int| 0 <= i < events.len() && is_start_event(#[trigger] events[i].event_type);
            if i < last {
                assert(rest[i] == events[i]);
            }
        }
        if exists|i: int| 0 <= i < events.len() && #[trigger] events[i].event_type == EventType::Completed {
            let i = choose|i: int| 0 <= i < events.len() && #[trigger] events[i].event_type == EventType::Completed;
            if i < last {
                assert(rest[i] == events[i]);
            }
        }
        if exists|i: int| 0 <= i < events.len() && is_marker_event(#[trigger] events[i].event_type) {
            let i = choose|i: int| 0 <= i < events.len() && is_marker_event(#[trigger] events[i].event_type);
            if i < last {
                assert(rest[i] == events[i]);
            }
        }
    }
}

/// Lead time is reported exactly when the log holds a start (STARTED or
/// RESUMED) and a completion; waiting time exactly when it holds a start and
/// an event marking the execution's appearance.
pub proof fn lemma_lead_and_waiting_presence(events: Seq<TimedEvent>, now: Moment)
    ensures
        spec_durations(events, now).lead is Some <==> (exists|i: int|
            0 <= i < events.len() && is_start_event(#[trigger] events[i].event_type)) && (exists|i: int|
            0 <= i < events.len() && #[trigger] events[i].event_type == EventType::Completed),
        spec_durations(events, now).waiting is Some <==> (exists|i: int|
            0 <= i < events.len() && is_start_event(#[trigger] events[i].event_type)) && (exists|i: int|
            0 <= i < events.len() && is_marker_event(#[trigger] events[i].event_type)),
{
    lemma_first_and_last_marks(events);
}

/// Reading an event that closes an interval moves no figure as of that
/// event's time: the time up to the event is kept in full. PAUSED and
/// BLOCKED keep the active time (and leave the other of the two alone);
/// UNBLOCKED keeps the blocked time; a start (STARTED or RESUMED) keeps the
/// paused and blocked time; COMPLETED keeps all three. After a final
/// CANCELLED no figure grows any more.
pub proof fn lemma_closing_events_keep_time(before: Seq<TimedEvent>, e: TimedEvent, now: Moment)
    ensures
        ({
            let t = e.timestamp;
            let was = spec_durations(before, t);
            let is = spec_durations(before.push(e), t);
            &&& e.event_type == EventType::Paused ==> is.active == was.active && is.blocked == was.blocked
            &&& e.event_type == EventType::Blocked ==> is.active == was.active && is.paused == was.paused
            &&& e.event_type == EventType::Unblocked ==> is.blocked == was.blocked && is.paused == was.paused
            &&& (e.event_type == EventType::Started || e.event_type == EventType::Resumed) ==> is.paused == was.paused
                && is.blocked == was.blocked
            &&& e.event_type == EventType::Completed ==> is.active == was.active && is.paused == was.paused
                && is.blocked == was.blocked
            &&& e.event_type == EventType::Cancelled ==> spec_durations(before.push(e), now).active == is.active
                && spec_durations(before.push(e), now).paused == is.paused && spec_durations(before.push(e), now).blocked
                == is.blocked
        }),
{
    let t = e.timestamp;
    assert(nanos_between(t, t) == 0);
    assert(elapsed(t, t) == 0);
    assert(before.push(e).drop_last() == before);
    assert(before.push(e).last() == e);
}

/// `s` is the first start (STARTED or RESUMED) of the log.
pub open spec fn first_start_at(events: Seq<TimedEvent>, s: int) -> bool {
    &&& 0 <= s < events.len()
    &&& is_start_event(events[s].event_type)
    &&& forall|k: int| 0 <= k < s ==> !is_start_event(#[trigger] events[k].event_type)
}

/// `m` is the first event of the log marking the execution's appearance.
pub open spec fn first_marker_at(events: Seq<TimedEvent>, m: int) -> bool {
    &&& 0 <= m < events.len()
    &&& is_marker_event(events[m].event_type)
    &&& forall|k: int| 0 <= k < m ==> !is_marker_event(#[trigger] events[k].event_type)
}

/// `c` is the last completion of the log.
pub open spec fn last_completion_at(events: Seq<TimedEvent>, c: int) -> bool {
    &&& 0 <= c < events.len()
    &&& events[c].event_type == EventType::Completed
    &&& forall|k: int| c < k < events.len() ==> (#[trigger] events[k].event_type) != EventType::Completed
}

proof fn lemma_mark_values(events: Seq<TimedEvent>, s: int, m: int, c: int)
    ensures
        first_start_at(events, s) ==> tally_from(empty_tally(), events).first_started == Some(events[s].timestamp),
        first_marker_at(events, m) ==> tally_from(empty_tally(), events).first_created == Some(events[m].timestamp),
        last_completion_at(events, c) ==> tally_from(empty_tally(), events).last_completed == Some(
            events[c].timestamp,
        ),
    decreases events.len(),
{
    if events.len() > 0 {
        let rest = events.drop_last();
        let last = events.len() - 1;
        lemma_mark_values(rest, s, m, c);
        lemma_first_and_last_marks(rest);
        assert forall|i: int| 0 <= i < rest.len() implies #[trigger] rest[i] == events[i] by {}
        if first_start_at(events, s) && s < last {
            assert(first_start_at(rest, s));
        }
        if first_start_at(events, s) && s == last {
            assert forall|i: int| 0 <= i < rest.len() implies !is_start_event(#[trigger] rest[i].event_type) by {
                assert(rest[i] == events[i]);
            }
        }
        if first_marker_at(events, m) && m < last {
            assert(first_marker_at(rest, m));
        }
        if first_marker_at(events, m) && m == last {
            assert forall|i: int| 0 <= i < rest.len() implies !is_marker_event(#[trigger] rest[i].event_type) by {
                assert(rest[i] == events[i]);
            }
        }
        if last_completion_at(events, c) && c < last {
            assert(events[last].event_type != EventType::Completed);
            assert(last_completion_at(rest, c));
        }
    }
}

/// Lead time runs from the first start to the last completion; waiting
/// time from the first event marking the execution's appearance to the
/// first start.
pub proof fn lemma_lead_and_waiting_values(events: Seq<TimedEvent>, now: Moment, s: int, m: int, c: int)
    ensures
        first_start_at(events, s) && last_completion_at(events, c) ==> spec_durations(events, now).lead == Some(
            elapsed(events[s].timestamp, events[c].timestamp),
        ),
        first_start_at(events, s) && first_marker_at(events, m) ==> spec_durations(events, now).waiting == Some(
            elapsed(events[m].timestamp, events[s].timestamp),
        ),
{
    lemma_mark_values(events, s, m, c);
}

/// Two tallies that agree on everything but the first appearance mark.
pub open spec fn same_but_created(a: Tally, b: Tally) -> bool {
    &&& a.active == b.active
    &&& a.paused == b.paused
    &&& a.blocked == b.blocked
    &&& a.active_since == b.active_since
    &&& a.paused_since == b.paused_since
    &&& a.blocked_since == b.blocked_since
    &&& a.first_started == b.first_started
    &&& a.last_completed == b.last_completed
}

proof fn lemma_tally_append(t: Tally, a: Seq<TimedEvent>, b: Seq<TimedEvent>)
    ensures
        tally_from(t, a + b) == tally_from(tally_from(t, a), b),
    decreases b.len(),
{
    if b.len() == 0 {
        assert(a + b =~= a);
    } else {
        assert((a + b).drop_last() =~= a + b.drop_last());
        assert((a + b).last() == b.last());
        lemma_tally_append(t, a, b.drop_last());
    }
}

proof fn lemma_same_but_created_preserved(a: Tally, b: Tally, events: Seq<TimedEvent>)
    requires
        same_but_created(a, b),
    ensures
        same_but_created(tally_from(a, events), tally_from(b, events)),
    decreases events.len(),
{
    if events.len() > 0 {
        lemma_same_but_created_preserved(a, b, events.drop_last());
    }
}

/// An interval still open when the log ends runs until `now`. Set against
/// the figures read at the time of the last event: after a final BLOCKED the
/// blocked time has grown by the time from that event to `now` and the
/// active time not at all; after a final PAUSED the paused time has grown
/// so and the active time not; after a final start (STARTED or RESUMED) the
/// active time has grown so and the paused and blocked time not; after a
/// final COMPLETED nothing grows any more.
pub proof fn lemma_open_interval_runs_until_now(events: Seq<TimedEvent>, now: Moment)
    requires
        events.len() > 0,
    ensures
        ({
            let last = events.last();
            let b = last.timestamp;
            let at_end = spec_durations(events, b);
            let later = spec_durations(events, now);
            &&& last.event_type == EventType::Blocked ==> later.blocked == at_end.blocked + elapsed(b, now)
                && later.active == at_end.active
            &&& last.event_type == EventType::Paused ==> later.paused == at_end.paused + elapsed(b, now)
                && later.active == at_end.active
            &&& (last.event_type == EventType::Started || last.event_type == EventType::Resumed) ==> later.active
                == at_end.active + elapsed(b, now) && later.paused == at_end.paused && later.blocked
                == at_end.blocked
            &&& last.event_type == EventType::Completed ==> later.active == at_end.active && later.paused
                == at_end.paused && later.blocked == at_end.blocked
        }),
{
    let b = events.last().timestamp;
    assert(nanos_between(b, b) == 0);
    assert(elapsed(b, b) == 0);
    assert(events.len() > 0);
}

/// Marker events (creation, readiness, assignment, notes, files, plan
/// changes, reopening) never change the active, paused or blocked time or
/// the lead time: inserting one anywhere in the log leaves them as they were.
pub proof fn lemma_marker_events_ignored(
    before: Seq<TimedEvent>,
    marker: TimedEvent,
    after: Seq<TimedEvent>,
    now: Moment,
)
    requires
        is_marker_event(marker.event_type),
    ensures
        ({
            let with = spec_durations(before + seq![marker] + after, now);
            let without = spec_durations(before + after, now);
            &&& with.active == without.active
            &&& with.paused == without.paused
            &&& with.blocked == without.blocked
            &&& with.lead == without.lead
        }),
{
    let t0 = empty_tally();
    let tb = tally_from(t0, before);
    let tm = tally_from(t0, before + seq![marker]);
    lemma_tally_append(t0, before, seq![marker]);
    assert(seq![marker].drop_last() =~= Seq::<TimedEvent>::empty());
    assert(tally_from(tb, Seq::<TimedEvent>::empty()) == tb);
    assert(seq![marker].last() == marker);
    assert(tally_from(tb, seq![marker]) == tally_step(tb, marker));
    assert(same_but_created(tm, tb));
    lemma_tally_append(t0, before + seq![marker], after);
    lemma_tally_append(t0, before, after);
    lemma_same_but_created_preserved(tm, tb, after);
}

} // verus!
