//! When a backend that failed is started again, and which start an event
//! belongs to.

use std::collections::VecDeque;

use vstd::prelude::*;

use crate::time::{Duration, Instant, NANOS_PER_MILLI};

verus! {

/// A session that ran this long was stable.
pub const STABLE_SESSION_NANOS: u64 = 10_000_000_000;

/// How long a failure counts.
pub const FAILURE_WINDOW_NANOS: u64 = 30_000_000_000;

/// So many failures that count pause a backend.
pub const MAX_QUICK_FAILURES: usize = 6;

/// The longest time before a restart.
pub const MAX_DELAY_NANOS: u64 = 8_000_000_000;

#[derive(Debug, Clone, Copy, PartialEq, Eq, Hash, PartialOrd, Ord, Structural)]
pub struct SessionId(pub u64);

/// One start of a backend.
#[derive(Debug, Clone, Copy, PartialEq, Eq, Structural)]
pub struct SessionIdentity {
    pub id: SessionId,
    pub generation: u64,
}

impl SessionIdentity {
    /// Whether an event belongs to this start.
    pub fn matches(self, event: SessionIdentity) -> (result: bool)
        ensures
            result == (self == event),
    {
        self == event
    }
}

/// Gives out session numbers until it is shut down.
#[derive(Debug, Clone, Copy, PartialEq, Eq, Structural)]
pub struct SessionIds {
    pub next: u64,
    pub shutting_down: bool,
}

impl SessionIds {
    pub open spec fn spec_new() -> SessionIds {
        SessionIds { next: 1, shutting_down: false }
    }

    pub open spec fn allocated(self) -> SessionIds {
        if self.shutting_down {
            self
        } else {
            SessionIds { next: (self.next + 1) as u64, ..self }
        }
    }

    pub fn new() -> (ids: SessionIds)
        ensures
            ids == SessionIds::spec_new(),
    {
        SessionIds { next: 1, shutting_down: false }
    }

    pub fn allocate(&mut self, generation: u64) -> (identity: Option<SessionIdentity>)
        requires
            old(self).shutting_down || old(self).next < u64::MAX,
        ensures
            *final(self) == old(self).allocated(),
            identity == if old(self).shutting_down {
                None
            } else {
                Some(SessionIdentity { id: SessionId(old(self).next), generation })
            },
    {
        if self.shutting_down {
            return None;
        }
        let id = SessionId(self.next);
        self.next = self.next + 1;
        Some(SessionIdentity { id, generation })
    }

    pub fn shutdown(&mut self)
        ensures
            *final(self) == (SessionIds { shutting_down: true, ..*old(self) }),
    {
        self.shutting_down = true;
    }

    pub fn is_shutting_down(&self) -> (result: bool)
        ensures
            result == self.shutting_down,
    {
        self.shutting_down
    }
}

#[derive(Debug, Clone, Copy, PartialEq, Eq, Structural)]
pub enum RestartDecision {
    Backoff(Duration),
    Paused,
}

/// How a backend has failed so far.
#[derive(Debug)]
pub struct RestartPolicy {
    pub consecutive: usize,
    pub quick_failures: VecDeque<Instant>,
}

#[verifier::ext_equal]
pub struct PolicyView {
    pub consecutive: usize,
    pub recent: Seq<Instant>,
}

impl View for RestartPolicy {
    type V = PolicyView;

    open spec fn view(&self) -> PolicyView {
        PolicyView { consecutive: self.consecutive, recent: self.quick_failures@ }
    }
}

/// The failures that still count: the oldest go once they are out of the window.
pub open spec fn counting(failures: Seq<Instant>, now: Instant) -> Seq<Instant>
    decreases failures.len(),
{
    if failures.len() > 0 && now.since(failures[0]) > FAILURE_WINDOW_NANOS {
        counting(failures.skip(1), now)
    } else {
        failures
    }
}

/// The time before a restart after so many failures in a row.
pub open spec fn restart_delay(consecutive: int) -> Duration {
    Duration {
        nanos: ((if consecutive <= 1 {
            250int
        } else if consecutive == 2 {
            500
        } else if consecutive == 3 {
            1_000
        } else if consecutive == 4 {
            2_000
        } else if consecutive == 5 {
            4_000
        } else {
            8_000
        }) * NANOS_PER_MILLI) as u64,
    }
}

impl PolicyView {
    /// A backend that has not failed.
    pub open spec fn fresh() -> PolicyView {
        PolicyView { consecutive: 0, recent: Seq::empty() }
    }

    /// The failures so far when one more comes after `runtime`.
    pub open spec fn failed(self, now: Instant, runtime: Duration) -> PolicyView {
        let known = if runtime.nanos >= STABLE_SESSION_NANOS {
            PolicyView::fresh()
        } else {
            self
        };
        PolicyView {
            consecutive: if known.consecutive < usize::MAX {
                (known.consecutive + 1) as usize
            } else {
                usize::MAX
            },
            recent: counting(known.recent, now).push(now),
        }
    }

    /// What is decided once the last failure is counted.
    pub open spec fn decision(self) -> RestartDecision {
        if self.recent.len() >= MAX_QUICK_FAILURES {
            RestartDecision::Paused
        } else {
            RestartDecision::Backoff(restart_delay(self.consecutive as int))
        }
    }

    /// The failures after backends that did not run at all failed at the given
    /// times.
    pub open spec fn failed_at(self, times: Seq<Instant>) -> PolicyView
        decreases times.len(),
    {
        if times.len() == 0 {
            self
        } else {
            self.failed_at(times.drop_last()).failed(times.last(), Duration { nanos: 0 })
        }
    }
}

impl Default for RestartPolicy {
    fn default() -> (policy: RestartPolicy)
        ensures
            policy@ == PolicyView::fresh(),
    {
        RestartPolicy { consecutive: 0, quick_failures: VecDeque::new() }
    }
}

impl RestartPolicy {
    pub fn failed(&mut self, now: Instant, runtime: Duration) -> (decision: RestartDecision)
        ensures
            final(self)@ == old(self)@.failed(now, runtime),
            decision == final(self)@.decision(),
            decision matches RestartDecision::Backoff(delay) ==> delay.nanos <= MAX_DELAY_NANOS,
    {
        if runtime.nanos >= STABLE_SESSION_NANOS {
            self.reset();
        }
        let ghost known = self@;
        while self.quick_failures.len() > 0 && now.saturating_duration_since(
            self.quick_failures[0],
        ).nanos > FAILURE_WINDOW_NANOS
            invariant
                self.consecutive == known.consecutive,
                counting(self.quick_failures@, now) == counting(known.recent, now),
            ensures
                self.quick_failures@ == counting(known.recent, now),
                self.consecutive == known.consecutive,
            decreases self.quick_failures@.len(),
        {
            let ghost before = self.quick_failures@;
            self.quick_failures.pop_front();
            assert(before.skip(1) =~= self.quick_failures@);
        }
        self.quick_failures.push_back(now);
        self.consecutive = self.consecutive.saturating_add(1);
        if self.quick_failures.len() >= MAX_QUICK_FAILURES {
            RestartDecision::Paused
        } else {
            let millis: u64 = match self.consecutive {
                0 | 1 => 250,
                2 => 500,
                3 => 1_000,
                4 => 2_000,
                5 => 4_000,
                _ => 8_000,
            };
            RestartDecision::Backoff(Duration::from_millis(millis))
        }
    }

    pub fn reset(&mut self)
        ensures
            final(self)@ == PolicyView::fresh(),
    {
        self.consecutive = 0;
        self.quick_failures.clear();
    }
}

/// A number that was given out never comes again.
pub proof fn session_numbers_grow(ids: SessionIds)
    requires
        !ids.shutting_down,
        ids.next < u64::MAX,
    ensures
        ids.allocated().next > ids.next,
{
}

/// The time before a restart grows with every failure in a row, from a quarter
/// of a second to eight seconds.
pub proof fn delays_grow_to_a_cap(fewer: int, more: int)
    requires
        fewer <= more,
    ensures
        restart_delay(1) == (Duration { nanos: 250_000_000 }),
        restart_delay(fewer).nanos <= restart_delay(more).nanos <= MAX_DELAY_NANOS,
        fewer >= 6 ==> restart_delay(fewer).nanos == MAX_DELAY_NANOS,
{
}

/// A stable session, or a reset, brings back the first delay.
pub proof fn stable_sessions_start_over(policy: PolicyView, now: Instant, runtime: Duration)
    requires
        runtime.nanos >= STABLE_SESSION_NANOS,
    ensures
        policy.failed(now, runtime) == PolicyView::fresh().failed(now, Duration { nanos: 0 }),
        policy.failed(now, runtime).decision() == RestartDecision::Backoff(restart_delay(1)),
{
}

/// Failures that lie in one window all count.
proof fn quick_failures_add_up(times: Seq<Instant>)
    requires
        times.len() <= MAX_QUICK_FAILURES,
        forall|i: int, j: int|
            0 <= i < j < times.len() ==> (#[trigger] times[j]).since(#[trigger] times[i])
                <= FAILURE_WINDOW_NANOS,
    ensures
        PolicyView::fresh().failed_at(times).recent == times,
        PolicyView::fresh().failed_at(times).consecutive == times.len(),
    decreases times.len(),
{
    if times.len() > 0 {
        let before = times.drop_last();
        quick_failures_add_up(before);
        if before.len() > 0 {
            assert(times[times.len() - 1].since(times[0]) <= FAILURE_WINDOW_NANOS);
        }
        assert(before.push(times.last()) =~= times);
    } else {
        assert(PolicyView::fresh().failed_at(times).recent =~= times);
    }
}

/// The sixth failure within thirty seconds pauses a backend, and no earlier one
/// does.
pub proof fn sixth_quick_failure_pauses_backend(times: Seq<Instant>)
    requires
        1 <= times.len() <= MAX_QUICK_FAILURES,
        forall|i: int, j: int|
            0 <= i < j < times.len() ==> (#[trigger] times[j]).since(#[trigger] times[i])
                <= FAILURE_WINDOW_NANOS,
    ensures
        PolicyView::fresh().failed_at(times).decision() is Paused <==> times.len()
            == MAX_QUICK_FAILURES,
{
    quick_failures_add_up(times);
}

/// The failures that lie within the window before the last one.
pub open spec fn quick_among(times: Seq<Instant>) -> Seq<Instant> {
    times.filter(|time: Instant| times.last().since(time) <= FAILURE_WINDOW_NANOS)
}

/// What is out of the window stays out of it.
proof fn counting_goes_on(failures: Seq<Instant>, now: Instant, later: Instant)
    requires
        now.nanos <= later.nanos,
    ensures
        counting(counting(failures, now), later) == counting(failures, later),
    decreases failures.len(),
{
    if failures.len() > 0 && now.since(failures[0]) > FAILURE_WINDOW_NANOS {
        counting_goes_on(failures.skip(1), now, later);
    }
}

proof fn last_failure_counts(failures: Seq<Instant>, now: Instant)
    ensures
        counting(failures, now).push(now) == counting(failures.push(now), now),
    decreases failures.len(),
{
    if failures.len() > 0 {
        assert(failures.push(now).skip(1) =~= failures.skip(1).push(now));
        last_failure_counts(failures.skip(1), now);
    }
}

proof fn all_are_kept(failures: Seq<Instant>, kept: spec_fn(Instant) -> bool)
    requires
        forall|i: int| 0 <= i < failures.len() ==> kept(#[trigger] failures[i]),
    ensures
        failures.filter(kept) == failures,
    decreases failures.len(),
{
    reveal(Seq::filter);
    if failures.len() > 0 {
        all_are_kept(failures.drop_last(), kept);
        assert(failures.drop_last().push(failures.last()) =~= failures);
    }
}

/// Of failures in order, those count that lie within the window.
pub proof fn counting_keeps_the_window(failures: Seq<Instant>, now: Instant)
    requires
        forall|i: int, j: int|
            0 <= i < j < failures.len() ==> (#[trigger] failures[i]).nanos <= (
            #[trigger] failures[j]).nanos,
    ensures
        counting(failures, now) == failures.filter(
            |time: Instant| now.since(time) <= FAILURE_WINDOW_NANOS,
        ),
    decreases failures.len(),
{
    let kept = |time: Instant| now.since(time) <= FAILURE_WINDOW_NANOS;
    if failures.len() > 0 && !kept(failures[0]) {
        let rest = failures.skip(1);
        counting_keeps_the_window(rest, now);
        let first = seq![failures[0]];
        assert(first + rest =~= failures);
        Seq::filter_distributes_over_add(first, rest, kept);
        reveal_with_fuel(Seq::filter, 2);
        assert(first.filter(kept) =~= Seq::empty());
        assert(failures.filter(kept) =~= rest.filter(kept));
    } else {
        assert forall|i: int| 0 <= i < failures.len() implies kept(#[trigger] failures[i]) by {
            if i > 0 {
                assert(failures[0].nanos <= failures[i].nanos);
            }
        }
        all_are_kept(failures, kept);
    }
}

/// Failures in order are counted by the window before the last one.
proof fn failures_in_order_are_counted(times: Seq<Instant>)
    requires
        times.len() > 0,
        forall|i: int, j: int|
            0 <= i < j < times.len() ==> (#[trigger] times[i]).nanos <= (#[trigger] times[j]).nanos,
    ensures
        PolicyView::fresh().failed_at(times).recent == counting(times, times.last()),
        PolicyView::fresh().failed_at(times).consecutive == if times.len() < usize::MAX {
            times.len() as int
        } else {
            usize::MAX as int
        },
    decreases times.len(),
{
    let before = times.drop_last();
    let last = times.last();
    assert(before.push(last) =~= times);
    last_failure_counts(before, last);
    if before.len() > 0 {
        failures_in_order_are_counted(before);
        assert(times[times.len() - 2].nanos <= times[times.len() - 1].nanos);
        counting_goes_on(before, before.last(), last);
    } else {
        assert(PolicyView::fresh().failed_at(before) == PolicyView::fresh());
        assert(before =~= Seq::empty());
    }
}

/// However long a run of failures is, the last one pauses the backend exactly
/// when six of them lie within the thirty seconds before it; otherwise the
/// backend waits as long as the number of failures asks for.
pub proof fn six_quick_failures_pause_any_run(times: Seq<Instant>)
    requires
        times.len() > 0,
        forall|i: int, j: int|
            0 <= i < j < times.len() ==> (#[trigger] times[i]).nanos <= (#[trigger] times[j]).nanos,
    ensures
        PolicyView::fresh().failed_at(times).decision() == if quick_among(times).len()
            >= MAX_QUICK_FAILURES {
            RestartDecision::Paused
        } else {
            RestartDecision::Backoff(restart_delay(times.len() as int))
        },
{
    failures_in_order_are_counted(times);
    counting_keeps_the_window(times, times.last());
}

/// Failures more than thirty seconds apart never pause a backend.
pub proof fn rare_failures_never_pause(times: Seq<Instant>)
    requires
        times.len() > 0,
        forall|i: int, j: int|
            0 <= i < j < times.len() ==> (#[trigger] times[j]).since(#[trigger] times[i])
                > FAILURE_WINDOW_NANOS,
    ensures
        PolicyView::fresh().failed_at(times).decision() is Backoff,
        PolicyView::fresh().failed_at(times).recent == seq![times.last()],
    decreases times.len(),
{
    let before = times.drop_last();
    let last = times.last();
    if before.len() > 0 {
        rare_failures_never_pause(before);
        let known = PolicyView::fresh().failed_at(before);
        assert(before.last() == times[times.len() - 2]);
        assert(times[times.len() - 1].since(times[times.len() - 2]) > FAILURE_WINDOW_NANOS);
        assert(known.recent.skip(1) =~= Seq::empty());
        assert(counting(known.recent.skip(1), last) =~= Seq::empty());
        assert(counting(known.recent, last) =~= Seq::empty());
    } else {
        assert(PolicyView::fresh().failed_at(before) == PolicyView::fresh());
    }
    assert(Seq::<Instant>::empty().push(last) =~= seq![last]);
}

} // verus!
