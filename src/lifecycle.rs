use vstd::prelude::*;

use crate::answers::{verdict_for, AnswerVerdict};
use crate::countdown::{
    emission, next_phase, registry_after, CountdownPhase, TaskEvent, TaskOutcome, COUNTDOWN_START,
};
use crate::decimal::decimal_text;

verus! {

/// The texts of a full countdown: `"360"`, `"359"`, ..., `"1"`, `"0"`.
pub open spec fn countdown_texts() -> Seq<Seq<char>> {
    Seq::new(COUNTDOWN_START as nat + 1, |i: int| decimal_text((COUNTDOWN_START - i) as nat))
}

/// `n` enqueues in a row that all succeeded.
pub open spec fn all_delivered(n: nat) -> Seq<TaskEvent> {
    Seq::new(n, |i: int| TaskEvent::Delivered)
}

/// The phase of a task, started by `sync_timer`, after it handled `events`.
pub open spec fn phase_after(events: Seq<TaskEvent>) -> CountdownPhase
    decreases events.len(),
{
    if events.len() == 0 {
        CountdownPhase::Running(COUNTDOWN_START)
    } else {
        next_phase(phase_after(events.drop_last()), events.last())
    }
}

/// The registry after a task for `id` started on `registry` and handled
/// `events`, with no other task touching the registry.
pub open spec fn registry_after_run(
    registry: Set<Seq<char>>,
    id: Seq<char>,
    events: Seq<TaskEvent>,
) -> Set<Seq<char>>
    decreases events.len(),
{
    if events.len() == 0 {
        registry.insert(id)
    } else {
        let earlier = events.drop_last();
        registry_after(
            registry_after_run(registry, id, earlier),
            id,
            phase_after(earlier),
            events.last(),
        )
    }
}

/// Every text that a task handed to the channel, in order, from its start
/// through the handling of `events`.
pub open spec fn sent_after(events: Seq<TaskEvent>) -> Seq<Seq<char>>
    decreases events.len(),
{
    if events.len() == 0 {
        seq![decimal_text(COUNTDOWN_START as nat)]
    } else {
        let earlier = sent_after(events.drop_last());
        match emission(phase_after(events)) {
            Some(text) => earlier.push(text),
            None => earlier,
        }
    }
}

/// What holds at every point of a task's life.
proof fn lemma_run(registry: Set<Seq<char>>, id: Seq<char>, events: Seq<TaskEvent>)
    ensures
        match phase_after(events) {
            CountdownPhase::Running(value) => {
                &&& value <= COUNTDOWN_START
                &&& registry_after_run(registry, id, events).contains(id)
                &&& sent_after(events) =~= countdown_texts().take(COUNTDOWN_START - value + 1)
            },
            CountdownPhase::Done(outcome) => {
                &&& !registry_after_run(registry, id, events).contains(id)
                &&& 1 <= sent_after(events).len() <= countdown_texts().len()
                &&& sent_after(events) =~= countdown_texts().take(sent_after(events).len() as int)
                &&& outcome == TaskOutcome::Completed ==> sent_after(events) =~= countdown_texts()
            },
        },
    decreases events.len(),
{
    if events.len() > 0 {
        let earlier = events.drop_last();
        lemma_run(registry, id, earlier);
        let before = phase_after(earlier);
        if let CountdownPhase::Running(value) = before {
            if let CountdownPhase::Running(now) = phase_after(events) {
                assert(now == value - 1);
                assert(sent_after(events) =~= sent_after(earlier).push(decimal_text(now as nat)));
            }
        }
    }
}

/// Exactly while a task is running, its client is registered: from the start
/// until the task ends, `id` is present, and once it has ended, whether by
/// completing or by disconnecting, `id` is absent (with no other task for
/// `id`).
pub proof fn registered_exactly_while_streaming(
    registry: Set<Seq<char>>,
    id: Seq<char>,
    events: Seq<TaskEvent>,
)
    ensures
        registry_after_run(registry, id, events).contains(id) <==> phase_after(events) is Running,
{
    lemma_run(registry, id, events);
}

/// A completed countdown handed out exactly `"360"`, `"359"`, ..., `"0"`, in
/// that order; and delivering every value completes it.
pub proof fn completed_countdown_sends_every_value(events: Seq<TaskEvent>)
    ensures
        phase_after(events) == CountdownPhase::Done(TaskOutcome::Completed) ==> sent_after(events)
            == countdown_texts(),
        phase_after(all_delivered(COUNTDOWN_START as nat + 1))
            == CountdownPhase::Done(TaskOutcome::Completed),
{
    lemma_run(Set::empty(), Seq::empty(), events);
    lemma_all_delivered(COUNTDOWN_START as nat + 1);
}

proof fn lemma_all_delivered(n: nat)
    requires
        n <= COUNTDOWN_START + 1,
    ensures
        phase_after(all_delivered(n)) == if n <= COUNTDOWN_START {
            CountdownPhase::Running((COUNTDOWN_START - n) as u16)
        } else {
            CountdownPhase::Done(TaskOutcome::Completed)
        },
    decreases n,
{
    if n > 0 {
        lemma_all_delivered((n - 1) as nat);
        assert(all_delivered(n).drop_last() =~= all_delivered((n - 1) as nat));
    }
}

/// A refused enqueue ends a running task at once: it is disconnected, its
/// client is deregistered, and whatever comes after, it hands out no further
/// text and leaves the registry as it is.
pub proof fn disconnect_stops_the_stream(
    registry: Set<Seq<char>>,
    id: Seq<char>,
    events: Seq<TaskEvent>,
    later: Seq<TaskEvent>,
)
    requires
        phase_after(events) is Running,
    ensures
        phase_after(events.push(TaskEvent::Rejected) + later) == CountdownPhase::Done(
            TaskOutcome::Disconnected,
        ),
        sent_after(events.push(TaskEvent::Rejected) + later) == sent_after(events),
        registry_after_run(registry, id, events.push(TaskEvent::Rejected) + later)
            == registry_after_run(registry, id, events).remove(id),
    decreases later.len(),
{
    let stopped = events.push(TaskEvent::Rejected);
    if later.len() == 0 {
        assert(stopped + later =~= stopped);
        assert(stopped.drop_last() =~= events);
    } else {
        disconnect_stops_the_stream(registry, id, events, later.drop_last());
        assert((stopped + later).drop_last() =~= stopped + later.drop_last());
    }
}

/// An answer from a client whose countdown is running is accepted.
pub proof fn active_stream_is_accepted(
    registry: Set<Seq<char>>,
    id: Seq<char>,
    events: Seq<TaskEvent>,
)
    requires
        phase_after(events) is Running,
    ensures
        verdict_for(registry_after_run(registry, id, events), id) == AnswerVerdict::Accepted,
{
    lemma_run(registry, id, events);
}

/// A change that a task makes to the registry.
pub enum RegistryChange {
    /// A task for this id started.
    Insert(Seq<char>),
    /// A task for this id ended.
    Remove(Seq<char>),
}

/// The registry after `changes`, applied in order to `registry`.
pub open spec fn apply_changes(registry: Set<Seq<char>>, changes: Seq<RegistryChange>) -> Set<
    Seq<char>,
>
    decreases changes.len(),
{
    if changes.len() == 0 {
        registry
    } else {
        let earlier = apply_changes(registry, changes.drop_last());
        match changes.last() {
            RegistryChange::Insert(id) => earlier.insert(id),
            RegistryChange::Remove(id) => earlier.remove(id),
        }
    }
}

/// An answer from a client for which no countdown was ever started is
/// rejected, whatever the tasks of other clients did to the registry.
pub proof fn unknown_client_is_rejected(changes: Seq<RegistryChange>, id: Seq<char>)
    requires
        forall|i: int| 0 <= i < changes.len() ==> changes[i] != RegistryChange::Insert(id),
    ensures
        verdict_for(apply_changes(Set::empty(), changes), id) == AnswerVerdict::Rejected,
    decreases changes.len(),
{
    if changes.len() > 0 {
        unknown_client_is_rejected(changes.drop_last(), id);
    }
}

/// Tasks for distinct clients do not disturb each other: a step of one
/// leaves the other's membership alone, and the registry ends the same
/// whichever of two such steps, or a start and a step, comes first.
pub proof fn distinct_tasks_are_independent(
    registry: Set<Seq<char>>,
    a: Seq<char>,
    phase_a: CountdownPhase,
    event_a: TaskEvent,
    b: Seq<char>,
    phase_b: CountdownPhase,
    event_b: TaskEvent,
)
    requires
        a != b,
    ensures
        registry_after(registry, a, phase_a, event_a).contains(b) == registry.contains(b),
        registry.insert(a).contains(b) == registry.contains(b),
        registry_after(registry_after(registry, a, phase_a, event_a), b, phase_b, event_b)
            == registry_after(registry_after(registry, b, phase_b, event_b), a, phase_a, event_a),
        registry_after(registry.insert(a), b, phase_b, event_b) == registry_after(
            registry,
            b,
            phase_b,
            event_b,
        ).insert(a),
{
    assert(registry.remove(a).remove(b) =~= registry.remove(b).remove(a));
    assert(registry.insert(a).remove(b) =~= registry.remove(b).insert(a));
}

/// The events of one of two tasks, out of a schedule that lists the events
/// of both in the order they were handled, each tagged `true` for the first
/// task and `false` for the second.
pub open spec fn events_of(schedule: Seq<(bool, TaskEvent)>, first: bool) -> Seq<TaskEvent>
    decreases schedule.len(),
{
    if schedule.len() == 0 {
        Seq::empty()
    } else {
        let earlier = events_of(schedule.drop_last(), first);
        if schedule.last().0 == first {
            earlier.push(schedule.last().1)
        } else {
            earlier
        }
    }
}

/// The registry after tasks for `a` and `b` both started on `registry` and
/// then handled the events of `schedule`, interleaved in that order.
pub open spec fn registry_after_pair(
    registry: Set<Seq<char>>,
    a: Seq<char>,
    b: Seq<char>,
    schedule: Seq<(bool, TaskEvent)>,
) -> Set<Seq<char>>
    decreases schedule.len(),
{
    if schedule.len() == 0 {
        registry.insert(a).insert(b)
    } else {
        let earlier = schedule.drop_last();
        let before = registry_after_pair(registry, a, b, earlier);
        let (first, event) = schedule.last();
        if first {
            registry_after(before, a, phase_after(events_of(earlier, true)), event)
        } else {
            registry_after(before, b, phase_after(events_of(earlier, false)), event)
        }
    }
}

/// Two tasks for distinct clients, however their steps interleave, each see
/// the registry as if alone: each client is registered exactly while its own
/// countdown runs, and each task's phase and texts depend on its own events
/// only.
pub proof fn interleaved_tasks_do_not_interfere(
    registry: Set<Seq<char>>,
    a: Seq<char>,
    b: Seq<char>,
    schedule: Seq<(bool, TaskEvent)>,
)
    requires
        a != b,
    ensures
        registry_after_pair(registry, a, b, schedule).contains(a) <==> phase_after(
            events_of(schedule, true),
        ) is Running,
        registry_after_pair(registry, a, b, schedule).contains(b) <==> phase_after(
            events_of(schedule, false),
        ) is Running,
    decreases schedule.len(),
{
    if schedule.len() > 0 {
        let earlier = schedule.drop_last();
        interleaved_tasks_do_not_interfere(registry, a, b, earlier);
        let (first, event) = schedule.last();
        let mine = events_of(schedule, first);
        assert(mine.drop_last() =~= events_of(earlier, first));
        assert(events_of(schedule, !first) == events_of(earlier, !first));
    }
}

} // verus!
