//! What supervision comes to over whole lives of backends: what counts as a
//! quick failure, what is waited for, and what is never started again.

use vstd::prelude::*;
use vstd::utf8::encode_utf8;

use crate::app::effect::{one_or_none, BackendFault, EffectView};
use crate::app::machine::{workbench_slots, LoadView, RuntimeView};
use crate::app::registry::{RegistryView, StateView};
use crate::app::supervisor::{
    counting, counting_keeps_the_window, restart_delay, PolicyView, SessionIdentity,
};
use crate::event::{KeyEvent, MouseEvent};
use crate::geometry::{sat_sub, Rect};
use crate::terminal::emulator::screen_cursor;
use crate::terminal::process::{ProcessView, TerminalSize};
use crate::terminal::query::answers;
use crate::text::{decimal, decimals_can_be_read_back, number_of};
use crate::time::{Duration, Instant};
use crate::workbench::pane::PaneId;

verus! {

/// Whether a backend waits for the report of a start.
pub open spec fn awaits_start(
    registry: RegistryView,
    pane: PaneId,
    identity: SessionIdentity,
) -> bool {
    &&& !registry.ids.shutting_down
    &&& registry.slots.dom().contains(pane)
    &&& registry.slots[pane].state !is Running
    &&& registry.slots[pane].generation == identity.generation
}

/// Whether times are in order and none is after `now`.
pub open spec fn in_order(times: Seq<Instant>, now: Instant) -> bool {
    &&& forall|i: int, j: int|
        0 <= i < j < times.len() ==> (#[trigger] times[i]).nanos <= (#[trigger] times[j]).nanos
    &&& forall|i: int| 0 <= i < times.len() ==> (#[trigger] times[i]).nanos <= now.nanos
}

/// A backend that fails within ten seconds of its start has failed once more,
/// and all failures of the last thirty seconds count. One that fails later has
/// failed once. Six failures that count pause it; else it is started again after
/// a wait.
pub proof fn failures_are_measured_from_the_start(
    registry: RegistryView,
    pane: PaneId,
    identity: SessionIdentity,
    start: Instant,
    end: Instant,
    message: Seq<char>,
)
    requires
        awaits_start(registry, pane, identity),
        start.nanos <= end.nanos,
        in_order(registry.slots[pane].policy.recent, end),
        registry.slots[pane].policy.consecutive < usize::MAX,
        end.nanos + 8_000_000_000 <= u64::MAX,
    ensures
        ({
            let before = registry.slots[pane].policy;
            let after = registry.started(pane, identity, start).faulted(
                pane,
                identity,
                end,
                message,
            ).slots[pane];
            &&& end.nanos - start.nanos < 10_000_000_000 ==> {
                &&& after.policy.consecutive == before.consecutive + 1
                &&& after.policy.recent == before.recent.filter(
                    |time: Instant| end.nanos - time.nanos <= 30_000_000_000,
                ).push(end)
            }
            &&& end.nanos - start.nanos >= 10_000_000_000 ==> {
                &&& after.policy.consecutive == 1
                &&& after.policy.recent == seq![end]
            }
            &&& after.policy.recent.len() >= 6 ==> after.state == (StateView::Paused { message })
            &&& after.policy.recent.len() < 6 ==> (after.state matches StateView::Backoff {
                until,
                message: told,
            } && told == message && until.nanos == end.nanos + restart_delay(
                after.policy.consecutive as int,
            ).nanos)
        }),
{
    let before = registry.slots[pane].policy;
    let running = registry.started(pane, identity, start);
    assert(running.concerned(pane, identity));
    let after = running.faulted(pane, identity, end, message).slots[pane];
    assert(end.since(start) == end.nanos - start.nanos);
    if end.nanos - start.nanos < 10_000_000_000 {
        counting_keeps_the_window(before.recent, end);
        let near = |time: Instant| end.since(time) <= 30_000_000_000;
        let told = |time: Instant| end.nanos - time.nanos <= 30_000_000_000;
        same_choice(before.recent, near, told);
    } else {
        assert(Seq::<Instant>::empty().push(end) =~= seq![end]);
    }
}

proof fn same_choice(
    times: Seq<Instant>,
    left: spec_fn(Instant) -> bool,
    right: spec_fn(Instant) -> bool,
)
    requires
        forall|i: int| 0 <= i < times.len() ==> left(#[trigger] times[i]) == right(times[i]),
    ensures
        times.filter(left) == times.filter(right),
    decreases times.len(),
{
    reveal(Seq::filter);
    if times.len() > 0 {
        assert(left(times[times.len() - 1]) == right(times[times.len() - 1]));
        same_choice(times.drop_last(), left, right);
    }
}

/// A start that does not succeed counts as a quick failure, and is told by the
/// name of the program.
pub proof fn failed_starts_count(
    registry: RegistryView,
    pane: PaneId,
    identity: SessionIdentity,
    now: Instant,
    error: Seq<char>,
)
    requires
        awaits_start(registry, pane, identity),
        in_order(registry.slots[pane].policy.recent, now),
        registry.slots[pane].policy.consecutive < usize::MAX,
        now.nanos + 8_000_000_000 <= u64::MAX,
    ensures
        ({
            let slot = registry.slots[pane];
            let message = "failed to start "@ + slot.process.display_name + ": "@ + error;
            registry.not_started(pane, identity, now, error).slots[pane] == registry.started(
                pane,
                identity,
                now,
            ).faulted(pane, identity, now, message).slots[pane]
        }),
{
}

/// What a session does, and how its terminal is looked at, does not change when
/// it was started nor what is known of earlier failures.
pub proof fn work_does_not_change_the_start(
    registry: RegistryView,
    pane: PaneId,
    identity: SessionIdentity,
    output: Seq<u8>,
    size: TerminalSize,
    lines: int,
)
    requires
        registry.slots.dom().contains(pane),
        registry.slots[pane].state is Running,
    ensures
        ({
            let kept = |after: RegistryView|
                {
                    &&& after.slots[pane].policy == registry.slots[pane].policy
                    &&& after.slots[pane].generation == registry.slots[pane].generation
                    &&& after.slots[pane].process == registry.slots[pane].process
                    &&& after.slots[pane].state is Running
                    &&& after.slots[pane].state->started_at
                        == registry.slots[pane].state->started_at
                    &&& after.slots[pane].state->identity == registry.slots[pane].state->identity
                    &&& after.ids == registry.ids
                };
            &&& kept(registry.read(pane, identity, output))
            &&& kept(registry.resized(pane, size))
            &&& kept(registry.frozen(pane))
            &&& kept(registry.thawed(pane))
            &&& kept(registry.scrolled(pane, lines))
        }),
{
}

/// The waits double from a quarter of a second until they reach eight seconds.
pub proof fn waits_double(failures: int)
    ensures
        restart_delay(1) == (Duration { nanos: 250_000_000 }),
        1 <= failures < 6 ==> restart_delay(failures + 1).nanos == 2 * restart_delay(
            failures,
        ).nanos,
        failures >= 6 ==> restart_delay(failures).nanos == 8_000_000_000,
{
}

/// A backend is started, runs from `start` to `end` and fails.
pub open spec fn crashed(
    registry: RegistryView,
    pane: PaneId,
    start: Instant,
    end: Instant,
    message: Seq<char>,
) -> RegistryView {
    let identity = registry.start_effect(pane)->0->Spawn_identity;
    registry.starting(pane).started(pane, identity, start).faulted(pane, identity, end, message)
}

/// A backend is started and fails again and again; each time is when it was
/// started and when it failed.
pub open spec fn crashes(
    registry: RegistryView,
    pane: PaneId,
    times: Seq<(Instant, Instant)>,
    message: Seq<char>,
) -> RegistryView
    decreases times.len(),
{
    if times.len() == 0 {
        registry
    } else {
        crashed(
            crashes(registry, pane, times.drop_last(), message),
            pane,
            times.last().0,
            times.last().1,
            message,
        )
    }
}

proof fn crashes_are_counted(
    registry: RegistryView,
    pane: PaneId,
    times: Seq<(Instant, Instant)>,
    message: Seq<char>,
)
    requires
        !registry.ids.shutting_down,
        registry.slots.dom().contains(pane),
        registry.slots[pane].state !is Running,
        registry.slots[pane].policy == PolicyView::fresh(),
        registry.slots[pane].generation + times.len() <= u64::MAX,
        times.len() <= 6,
        forall|i: int|
            0 <= i < times.len() ==> (#[trigger] times[i]).0.nanos <= times[i].1.nanos
                < times[i].0.nanos + 10_000_000_000,
        forall|i: int, j: int|
            0 <= i < j < times.len() ==> (#[trigger] times[i]).1.nanos <= (
            #[trigger] times[j]).1.nanos <= times[i].1.nanos + 30_000_000_000,
        forall|i: int|
            0 <= i < times.len() ==> (#[trigger] times[i]).1.nanos + 8_000_000_000 <= u64::MAX,
    ensures
        ({
            let after = crashes(registry, pane, times, message);
            &&& !after.ids.shutting_down
            &&& after.slots.dom().contains(pane)
            &&& after.slots[pane].state !is Running
            &&& after.slots[pane].generation == registry.slots[pane].generation + times.len()
            &&& after.slots[pane].policy.consecutive == times.len()
            &&& after.slots[pane].policy.recent == Seq::new(times.len(), |i: int| times[i].1)
            &&& 0 < times.len() < 6 ==> (after.slots[pane].state matches StateView::Backoff {
                until,
                message: told,
            } && told == message && until.nanos == times.last().1.nanos + restart_delay(
                times.len() as int,
            ).nanos)
            &&& times.len() == 6 ==> after.slots[pane].state == (StateView::Paused { message })
        }),
    decreases times.len(),
{
    let ends = Seq::new(times.len(), |i: int| times[i].1);
    if times.len() == 0 {
        assert(ends =~= Seq::empty());
    } else {
        let before = times.drop_last();
        assert forall|i: int| 0 <= i < before.len() implies (#[trigger] before[i]).0.nanos
            <= before[i].1.nanos < before[i].0.nanos + 10_000_000_000 && before[i].1.nanos
            + 8_000_000_000 <= u64::MAX by {
            assert(before[i] == times[i]);
        }
        assert forall|i: int, j: int| 0 <= i < j < before.len() implies (
        #[trigger] before[i]).1.nanos <= (#[trigger] before[j]).1.nanos <= before[i].1.nanos
            + 30_000_000_000 by {
            assert(before[i] == times[i] && before[j] == times[j]);
        }
        crashes_are_counted(registry, pane, before, message);
        let known = crashes(registry, pane, before, message);
        let (start, end) = times.last();
        assert(times[times.len() - 1] == times.last());
        let identity = known.start_effect(pane)->0->Spawn_identity;
        let asked = known.starting(pane);
        let recent = known.slots[pane].policy.recent;
        assert forall|i: int| 0 <= i < recent.len() implies (#[trigger] recent[i]).nanos
            <= end.nanos && end.nanos - recent[i].nanos <= 30_000_000_000 by {
            assert(recent[i] == times[i].1);
        }
        assert(in_order(recent, end)) by {
            assert forall|i: int, j: int| 0 <= i < j < recent.len() implies (
            #[trigger] recent[i]).nanos <= (#[trigger] recent[j]).nanos by {
                assert(recent[i] == times[i].1 && recent[j] == times[j].1);
            }
        }
        failures_are_measured_from_the_start(asked, pane, identity, start, end, message);
        let near = |time: Instant| end.nanos - time.nanos <= 30_000_000_000;
        all_stay(recent, near);
        assert(recent.push(end) =~= ends);
    }
}

proof fn all_stay(times: Seq<Instant>, near: spec_fn(Instant) -> bool)
    requires
        forall|i: int| 0 <= i < times.len() ==> near(#[trigger] times[i]),
    ensures
        times.filter(near) == times,
    decreases times.len(),
{
    reveal(Seq::filter);
    if times.len() > 0 {
        assert(near(times[times.len() - 1]));
        all_stay(times.drop_last(), near);
        assert(times.drop_last().push(times.last()) =~= times);
    }
}

/// A backend that keeps failing within ten seconds of its starts is started
/// again after 250, 500, 1000, 2000 and 4000 milliseconds, and its sixth failure
/// in thirty seconds pauses it, whatever the clock says.
pub proof fn crash_loops_are_paused(
    registry: RegistryView,
    pane: PaneId,
    times: Seq<(Instant, Instant)>,
    message: Seq<char>,
)
    requires
        !registry.ids.shutting_down,
        registry.slots.dom().contains(pane),
        registry.slots[pane].state !is Running,
        registry.slots[pane].policy == PolicyView::fresh(),
        registry.slots[pane].generation + times.len() <= u64::MAX,
        0 < times.len() <= 6,
        forall|i: int|
            0 <= i < times.len() ==> (#[trigger] times[i]).0.nanos <= times[i].1.nanos
                < times[i].0.nanos + 10_000_000_000,
        forall|i: int, j: int|
            0 <= i < j < times.len() ==> (#[trigger] times[i]).1.nanos <= (
            #[trigger] times[j]).1.nanos <= times[i].1.nanos + 30_000_000_000,
        forall|i: int|
            0 <= i < times.len() ==> (#[trigger] times[i]).1.nanos + 8_000_000_000 <= u64::MAX,
    ensures
        ({
            let state = crashes(registry, pane, times, message).slots[pane].state;
            let failed = times.last().1.nanos;
            let waits = seq![250, 500, 1_000, 2_000, 4_000int];
            if times.len() == 6 {
                state == (StateView::Paused { message })
            } else {
                &&& state is Backoff
                &&& state->until.nanos == failed + waits[times.len() - 1] * 1_000_000
            }
        }),
{
    crashes_are_counted(registry, pane, times, message);
}

/// Sessions that run for ten seconds or more never pause a backend: each time it
/// is started again after the first wait.
pub proof fn stable_backends_are_never_paused(
    registry: RegistryView,
    pane: PaneId,
    start: Instant,
    end: Instant,
    message: Seq<char>,
)
    requires
        !registry.ids.shutting_down,
        registry.slots.dom().contains(pane),
        registry.slots[pane].state !is Running,
        registry.slots[pane].generation < u64::MAX,
        start.nanos + 10_000_000_000 <= end.nanos,
        end.nanos + 8_000_000_000 <= u64::MAX,
    ensures
        crashed(registry, pane, start, end, message).slots[pane].state == (StateView::Backoff {
            until: Instant { nanos: (end.nanos + 250_000_000) as u64 },
            message,
        }),
{
    assert(end.since(start) == end.nanos - start.nanos);
}

/// Times that are all later by the same span.
pub open spec fn shifted(policy: PolicyView, span: int) -> PolicyView {
    PolicyView {
        consecutive: policy.consecutive,
        recent: Seq::new(
            policy.recent.len(),
            |i: int| Instant { nanos: (policy.recent[i].nanos + span) as u64 },
        ),
    }
}

/// Only spans of time count: the same life of a backend, earlier or later, comes
/// to the same decision.
pub proof fn clocks_do_not_matter(
    early: RegistryView,
    late: RegistryView,
    pane: PaneId,
    identity: SessionIdentity,
    start: Instant,
    end: Instant,
    span: int,
    message: Seq<char>,
)
    requires
        awaits_start(early, pane, identity),
        awaits_start(late, pane, identity),
        late.slots[pane].policy == shifted(early.slots[pane].policy, span),
        in_order(early.slots[pane].policy.recent, end),
        start.nanos <= end.nanos,
        0 <= span,
        end.nanos + span + 8_000_000_000 <= u64::MAX,
    ensures
        ({
            let first = early.started(pane, identity, start).faulted(
                pane,
                identity,
                end,
                message,
            ).slots[pane];
            let second = late.started(
                pane,
                identity,
                Instant { nanos: (start.nanos + span) as u64 },
            ).faulted(
                pane,
                identity,
                Instant { nanos: (end.nanos + span) as u64 },
                message,
            ).slots[pane];
            &&& second.policy == shifted(first.policy, span)
            &&& first.state is Paused <==> second.state is Paused
            &&& first.state is Backoff ==> second.state is Backoff && second.state->until.nanos
                == first.state->until.nanos + span
        }),
{
    let now = Instant { nanos: (end.nanos + span) as u64 };
    let policy = early.slots[pane].policy;
    counting_shifts(policy.recent, shifted(policy, span).recent, end, now, span);
    let first = early.started(pane, identity, start).faulted(
        pane,
        identity,
        end,
        message,
    ).slots[pane];
    let second = late.started(
        pane,
        identity,
        Instant { nanos: (start.nanos + span) as u64 },
    ).faulted(pane, identity, now, message).slots[pane];
    assert(second.policy.recent =~= shifted(first.policy, span).recent);
}

proof fn counting_shifts(
    times: Seq<Instant>,
    later: Seq<Instant>,
    now: Instant,
    then_now: Instant,
    span: int,
)
    requires
        later.len() == times.len(),
        0 <= span,
        then_now.nanos == now.nanos + span,
        forall|i: int| 0 <= i < times.len() ==> (#[trigger] times[i]).nanos <= now.nanos,
        forall|i: int|
            0 <= i < times.len() ==> (#[trigger] later[i]).nanos == times[i].nanos + span,
    ensures
        counting(later, then_now).len()
            == counting(times, now).len(),
        forall|i: int|
            0 <= i < counting(times, now).len() ==> (
            #[trigger] counting(later, then_now)[i]).nanos
                == counting(times, now)[i].nanos + span,
        counting(times, now).len() <= times.len(),
    decreases times.len(),
{
    if times.len() > 0 {
        assert(times[0].nanos <= now.nanos && later[0].nanos == times[0].nanos + span);
        let rest = times.skip(1);
        let later_rest = later.skip(1);
        assert forall|i: int| 0 <= i < rest.len() implies (#[trigger] rest[i]).nanos
            <= now.nanos by {
            assert(rest[i] == times[i + 1]);
        }
        assert forall|i: int| 0 <= i < rest.len() implies (#[trigger] later_rest[i]).nanos
            == rest[i].nanos + span by {
            assert(later_rest[i] == later[i + 1] && rest[i] == times[i + 1]);
        }
        counting_shifts(rest, later_rest, now, then_now, span);
    }
}

/// Whether effects ask for a start of a pane's backend.
pub open spec fn asks_for(effects: Seq<EffectView>, pane: PaneId) -> bool {
    exists|i: int|
        0 <= i < effects.len() && (#[trigger] effects[i] matches EffectView::Spawn {
            pane: started,
            ..
        } && started == pane)
}

/// Whether a slot waits for a restart whose time has come.
pub open spec fn overdue(registry: RegistryView, pane: PaneId, now: Instant) -> bool {
    &&& !registry.ids.shutting_down
    &&& registry.slots.dom().contains(pane)
    &&& registry.slots[pane].state matches StateView::Backoff { until, .. } && until.nanos
        <= now.nanos
}

proof fn asking_adds_up(first: Seq<EffectView>, second: Seq<EffectView>, pane: PaneId)
    ensures
        asks_for(first + second, pane) <==> asks_for(first, pane) || asks_for(second, pane),
{
    let both = first + second;
    if asks_for(first, pane) {
        let i = choose|i: int|
            0 <= i < first.len() && (#[trigger] first[i] matches EffectView::Spawn {
                pane: started,
                ..
            } && started == pane);
        assert(both[i] == first[i]);
    }
    if asks_for(second, pane) {
        let i = choose|i: int|
            0 <= i < second.len() && (#[trigger] second[i] matches EffectView::Spawn {
                pane: started,
                ..
            } && started == pane);
        assert(both[first.len() + i] == second[i]);
    }
    if asks_for(both, pane) {
        let i = choose|i: int|
            0 <= i < both.len() && (#[trigger] both[i] matches EffectView::Spawn {
                pane: started,
                ..
            } && started == pane);
        if i < first.len() {
            assert(both[i] == first[i]);
        } else {
            assert(both[i] == second[i - first.len()]);
        }
    }
}

proof fn one_asks(effect: Option<EffectView>, pane: PaneId)
    ensures
        asks_for(one_or_none(effect), pane) <==> (effect matches Some(
            EffectView::Spawn { pane: started, .. },
        ) && started == pane),
{
    let effects = one_or_none(effect);
    if effect is Some {
        assert(effects[0] == effect->0);
    }
}

/// Exactly those backends are started again whose time has come.
pub proof fn exactly_the_overdue_are_started(registry: RegistryView, pane: PaneId, now: Instant)
    ensures
        asks_for(registry.poll_effects(now), pane) <==> overdue(registry, pane, now),
{
    let first = registry.respawned(PaneId::Editor, now);
    let second = first.respawned(PaneId::Agent, now);
    let third = second.respawned(PaneId::Bottom, now);
    let editor = registry.respawn_effect(PaneId::Editor, now);
    let agent = first.respawn_effect(PaneId::Agent, now);
    let bottom = second.respawn_effect(PaneId::Bottom, now);
    let sidebar = third.respawn_effect(PaneId::Sidebar, now);
    one_asks(editor, pane);
    one_asks(agent, pane);
    one_asks(bottom, pane);
    one_asks(sidebar, pane);
    let a = one_or_none(editor);
    let b = one_or_none(agent);
    let c = one_or_none(bottom);
    let d = one_or_none(sidebar);
    asking_adds_up(a, b, pane);
    asking_adds_up(a + b, c, pane);
    asking_adds_up(a + b + c, d, pane);
}

/// A start is asked for with the program and the size of its pane and under a
/// number that no earlier start had; the other panes do not notice.
pub proof fn starts_have_their_own_numbers(registry: RegistryView, pane: PaneId, other: PaneId)
    requires
        !registry.ids.shutting_down,
        registry.slots.dom().contains(pane),
        registry.can_start(pane),
        other != pane,
    ensures
        registry.start_effect(pane) matches Some(EffectView::Spawn {
            pane: started,
            identity,
            process,
            size,
        }) && {
            &&& started == pane
            &&& process == registry.slots[pane].process
            &&& size == registry.slots[pane].size
            &&& identity.id.0 == registry.ids.next
            &&& identity.generation == registry.slots[pane].generation + 1
            &&& awaits_start(registry.starting(pane), pane, identity)
                || registry.slots[pane].state is Running
        },
        registry.starting(pane).ids.next == registry.ids.next + 1,
        registry.starting(pane).slots[pane].policy == registry.slots[pane].policy,
        registry.starting(pane).slots[pane].state == registry.slots[pane].state,
        registry.starting(pane).slots[other] == registry.slots[other],
{
}

/// A start that is reported is the session that runs from then on, at the size
/// and under the name of its pane. A report of another start is dropped.
pub proof fn reported_starts_run(
    registry: RegistryView,
    pane: PaneId,
    identity: SessionIdentity,
    now: Instant,
)
    requires
        registry.slots.dom().contains(pane),
    ensures
        awaits_start(registry, pane, identity) ==> {
            let after = registry.started(pane, identity, now);
            &&& after.current(pane) == Some(identity)
            &&& after.slots[pane].state->started_at == now
            &&& after.session(pane) matches Some(session) && session.name
                == registry.slots[pane].process.display_name && session.size
                == registry.slots[pane].size && session.frozen is None
            &&& after.slots[pane].policy == registry.slots[pane].policy
        },
        !awaits_start(registry, pane, identity) ==> registry.started(pane, identity, now)
            == registry,
{
}

/// A backend that the user starts again has its failures forgotten and is asked
/// for at once; one that runs is left alone.
pub proof fn retries_start_over(registry: RegistryView, pane: PaneId)
    requires
        !registry.ids.shutting_down,
        registry.slots.dom().contains(pane),
        registry.can_start(pane),
    ensures
        registry.slots[pane].state is Running ==> registry.retried(pane) == registry
            && registry.retry_effect(pane) is None,
        registry.slots[pane].state !is Running ==> {
            let after = registry.retried(pane).slots[pane];
            &&& after.policy.consecutive == 0
            &&& after.policy.recent.len() == 0
            &&& after.state is Starting
            &&& registry.retry_effect(pane) matches Some(EffectView::Spawn {
                pane: started,
                identity,
                process,
                size,
            }) && started == pane && process == registry.slots[pane].process && size
                == registry.slots[pane].size && awaits_start(registry.retried(pane), pane, identity)
        },
{
}

/// A backend that waits or is paused does not run, is not written to and does
/// not take reports of what it was.
pub proof fn failed_backends_are_left_alone(
    registry: RegistryView,
    pane: PaneId,
    identity: SessionIdentity,
    now: Instant,
    message: Seq<char>,
    key: KeyEvent,
    event: MouseEvent,
    text: Seq<char>,
)
    requires
        registry.concerned(pane, identity),
    ensures
        ({
            let after = registry.faulted(pane, identity, now, message);
            &&& after.current(pane) is None
            &&& after.session(pane) is None
            &&& after.key_effect(pane, key) is None
            &&& after.mouse_effect(pane, event) is None
            &&& after.pasted(pane, text) is None
            &&& after.faulted(pane, identity, now, message) == after
            &&& after.slots[pane].process == registry.slots[pane].process
            &&& after.slots[pane].size == registry.slots[pane].size
            &&& after.slots[pane].generation == registry.slots[pane].generation
        }),
{
}

/// Whether effects end a session.
pub open spec fn ends(effects: Seq<EffectView>, pane: PaneId, identity: SessionIdentity) -> bool {
    effects.contains(EffectView::Terminate { pane, identity })
}

/// A shutdown ends exactly the sessions that run.
pub proof fn shutdowns_end_what_runs(
    registry: RegistryView,
    pane: PaneId,
    identity: SessionIdentity,
)
    ensures
        ends(registry.shut_effects(), pane, identity) <==> registry.current(pane) == Some(identity),
{
    let effect = EffectView::Terminate { pane, identity };
    let a = one_or_none(registry.stop_effect(PaneId::Editor));
    let b = one_or_none(registry.stop_effect(PaneId::Agent));
    let c = one_or_none(registry.stop_effect(PaneId::Bottom));
    let d = one_or_none(registry.stop_effect(PaneId::Sidebar));
    one_holds(registry.stop_effect(PaneId::Editor), effect);
    one_holds(registry.stop_effect(PaneId::Agent), effect);
    one_holds(registry.stop_effect(PaneId::Bottom), effect);
    one_holds(registry.stop_effect(PaneId::Sidebar), effect);
    holding_adds_up(a, b, effect);
    holding_adds_up(a + b, c, effect);
    holding_adds_up(a + b + c, d, effect);
}

proof fn one_holds(effect: Option<EffectView>, wanted: EffectView)
    ensures
        one_or_none(effect).contains(wanted) <==> effect == Some(wanted),
{
    let effects = one_or_none(effect);
    if effect is Some {
        assert(effects[0] == effect->0);
    }
}

proof fn holding_adds_up(first: Seq<EffectView>, second: Seq<EffectView>, wanted: EffectView)
    ensures
        (first + second).contains(wanted) <==> first.contains(wanted) || second.contains(wanted),
{
    let both = first + second;
    if first.contains(wanted) {
        let i = choose|i: int| 0 <= i < first.len() && first[i] == wanted;
        assert(both[i] == wanted);
    }
    if second.contains(wanted) {
        let i = choose|i: int| 0 <= i < second.len() && second[i] == wanted;
        assert(both[first.len() + i] == wanted);
    }
    if both.contains(wanted) {
        let i = choose|i: int| 0 <= i < both.len() && both[i] == wanted;
        if i < first.len() {
            assert(first[i] == wanted);
        } else {
            assert(second[i - first.len()] == wanted);
        }
    }
}

/// The title of a pane says how long a wait still takes, in whole milliseconds,
/// after what went wrong; that a start is awaited; or that nothing will be
/// started. It says nothing of a backend that runs.
pub proof fn waits_are_told(registry: RegistryView, pane: PaneId, now: Instant, click: bool)
    requires
        registry.slots.dom().contains(pane),
    ensures
        ({
            let told = registry.status_text(pane, now, click);
            let how = if click {
                "click to retry"@
            } else {
                "press any key to retry"@
            };
            match registry.slots[pane].state {
                StateView::Running { .. } => told is None,
                StateView::Starting => told == Some("starting…"@),
                StateView::Backoff { until, message } => exists|digits: Seq<char>|
                    {
                        &&& told == Some(
                            message + "; retrying in "@ + digits + "ms ("@ + how + ")"@,
                        )
                        &&& now.nanos <= until.nanos ==> #[trigger] number_of(digits) == (
                        until.nanos - now.nanos) / 1_000_000
                        &&& now.nanos > until.nanos ==> number_of(digits) == 0
                    },
                StateView::Paused { message } => told == Some(
                    message + "; paused ("@ + how + ")"@,
                ),
            }
        }),
{
    match registry.slots[pane].state {
        StateView::Backoff { until, message } => {
            let left = (until.since(now) / 1_000_000) as nat;
            decimals_can_be_read_back(left);
            assert(number_of(decimal(left)) == left);
        },
        _ => {},
    }
}

/// A program is told the size of its terminal when it changes, and only then. A
/// backend that does not run is started at the size that its pane had last.
pub proof fn sizes_are_told_once(registry: RegistryView, pane: PaneId, size: TerminalSize)
    requires
        registry.slots.dom().contains(pane),
        !registry.ids.shutting_down,
    ensures
        ({
            let after = registry.resized(pane, size);
            let running = registry.slots[pane].state is Running;
            &&& after.slots[pane].size == size
            &&& after.resize_effect(pane, size) is None
            &&& running ==> after.session(pane)->0.size == size
            &&& running ==> (registry.resize_effect(pane, size) is Some <==> registry.session(
                pane,
            )->0.size != size)
            &&& !running ==> registry.resize_effect(pane, size) is None
            &&& registry.resize_effect(pane, size) matches Some(effect) ==> effect == (
            EffectView::Resize { pane, identity: registry.current(pane)->0, size })
            &&& after.start_effect(pane) matches Some(EffectView::Spawn { size: told, .. }) && told
                == size
        }),
{
}

/// What a program asks is answered to that program, each answer in a write of
/// its own. Output of a session that no longer runs is neither read nor
/// answered.
pub proof fn answers_go_to_who_asked(
    registry: RegistryView,
    pane: PaneId,
    identity: SessionIdentity,
    output: Seq<u8>,
    i: int,
)
    ensures
        ({
            let effects = registry.output_effects(pane, identity, output);
            let after = registry.read(pane, identity, output);
            &&& registry.current(pane) != Some(identity) ==> effects.len() == 0 && after == registry
            &&& 0 <= i < effects.len() ==> {
                let told = answers(output, screen_cursor(after.session(pane)->0.live()));
                &&& effects.len() == told.len()
                &&& effects[i] == (EffectView::Write {
                    pane,
                    identity,
                    bytes: encode_utf8(told[i]),
                    fault: BackendFault::Output,
                })
            }
        }),
{
}

/// A workbench starts with its three backends asked for: the editor, the agent
/// and the shell, each in its own pane and at the size of what its border
/// leaves.
pub proof fn workbenches_start_every_backend(
    area: Rect,
    load: LoadView,
    editor: ProcessView,
    agent: ProcessView,
    shell: ProcessView,
)
    ensures
        ({
            let state = RuntimeView::opened(area, load, editor, agent, shell);
            let layout = state.layout->0;
            let asked = |at: int, pane: PaneId, process: ProcessView, room: Rect|
                state.outbox[at] matches EffectView::Spawn {
                    pane: place,
                    process: program,
                    size,
                    ..
                } && place == pane && program == process && size == TerminalSize::spec_new(
                    sat_sub(room.width, 2),
                    sat_sub(room.height, 2),
                );
            &&& state.outbox.len() == 3
            &&& asked(0, PaneId::Editor, editor, layout.editor)
            &&& asked(1, PaneId::Agent, agent, layout.agent)
            &&& asked(2, PaneId::Bottom, shell, layout.bottom)
            &&& state.workbench.focused == PaneId::Editor
            &&& state.workbench.selection is None
        }),
{
    let state = RuntimeView::opened(area, load, editor, agent, shell);
    let sessions = workbench_slots(state.layout->0, editor, agent, shell);
    let first = sessions.starting(PaneId::Editor);
    let second = first.starting(PaneId::Agent);
    let third = second.starting(PaneId::Bottom);
    assert(sessions.starts(PaneId::Editor) && first.starts(PaneId::Agent));
    assert(second.starts(PaneId::Bottom) && !third.starts(PaneId::Sidebar));
}

} // verus!
