use vstd::prelude::*;

use crate::decimal::{decimal_string, decimal_text};
use crate::registry::ConnectedUsers;

verus! {

/// The first value of every countdown; the last one is zero.
pub const COUNTDOWN_START: u16 = 360;

/// How a countdown task ended.
#[derive(Clone, Copy, Debug, PartialEq, Eq, Structural)]
pub enum TaskOutcome {
    /// Every value down to zero was delivered.
    Completed,
    /// The consumer went away and an enqueue was refused.
    Disconnected,
}

/// The result of the last enqueue into the event channel.
#[derive(Clone, Copy, Debug, PartialEq, Eq, Structural)]
pub enum TaskEvent {
    /// The value was taken by the channel.
    Delivered,
    /// The channel refused the value: its consumer is gone.
    Rejected,
}

/// Where a countdown task stands.
#[derive(Clone, Copy, Debug, PartialEq, Eq, Structural)]
pub enum CountdownPhase {
    /// The value held here is being enqueued and has not been answered yet.
    Running(u16),
    /// The task is over; its client was deregistered when it got here.
    Done(TaskOutcome),
}

/// What the driver of a task does next.
#[derive(Debug)]
pub enum TaskAction {
    /// Wait for the next tick, enqueue this text, and report the result.
    Send(String),
    /// Stop: the task is over.
    Stop(TaskOutcome),
}

/// The phase after `phase` when the last enqueue had result `event`.
pub open spec fn next_phase(phase: CountdownPhase, event: TaskEvent) -> CountdownPhase {
    match phase {
        CountdownPhase::Running(value) => match event {
            TaskEvent::Delivered => if value == 0 {
                CountdownPhase::Done(TaskOutcome::Completed)
            } else {
                CountdownPhase::Running((value - 1) as u16)
            },
            TaskEvent::Rejected => CountdownPhase::Done(TaskOutcome::Disconnected),
        },
        CountdownPhase::Done(outcome) => CountdownPhase::Done(outcome),
    }
}

/// The registry after a task for `id` in `phase` handles `event`: the id
/// leaves the registry exactly when the task ends.
pub open spec fn registry_after(
    registry: Set<Seq<char>>,
    id: Seq<char>,
    phase: CountdownPhase,
    event: TaskEvent,
) -> Set<Seq<char>> {
    if phase is Running && next_phase(phase, event) is Done {
        registry.remove(id)
    } else {
        registry
    }
}

/// The text that a task in `phase` hands to the channel, if any.
pub open spec fn emission(phase: CountdownPhase) -> Option<Seq<char>> {
    match phase {
        CountdownPhase::Running(value) => Some(decimal_text(value as nat)),
        CountdownPhase::Done(_) => None,
    }
}

impl TaskAction {
    /// This action is the one that a task in `phase` performs.
    pub open spec fn describes(&self, phase: CountdownPhase) -> bool {
        match self {
            TaskAction::Send(text) => emission(phase) == Some(text@),
            TaskAction::Stop(outcome) => phase == CountdownPhase::Done(*outcome),
        }
    }
}

/// The countdown of one connection, for one client.
pub struct CountdownTask {
    user_id: String,
    phase: CountdownPhase,
}

impl CountdownTask {
    /// The identifier of the client that receives this countdown.
    pub closed spec fn id(&self) -> Seq<char> {
        self.user_id@
    }

    /// Where the task stands, in specifications.
    pub closed spec fn spec_phase(&self) -> CountdownPhase {
        self.phase
    }

    /// Where the task stands.
    #[verifier::when_used_as_spec(spec_phase)]
    pub fn phase(&self) -> (r: CountdownPhase)
        ensures
            r == self.spec_phase(),
    {
        self.phase
    }

    /// The action of a task in `phase`.
    fn action(phase: CountdownPhase) -> (r: TaskAction)
        ensures
            r.describes(phase),
    {
        match phase {
            CountdownPhase::Running(value) => TaskAction::Send(decimal_string(value as u64)),
            CountdownPhase::Done(outcome) => TaskAction::Stop(outcome),
        }
    }

    /// Handles the result of the last enqueue: moves to the next value, or
    /// ends the task and deregisters its client. Once the task is over it
    /// stays over, emits nothing and leaves the registry alone.
    pub fn step(&mut self, event: TaskEvent, users: &mut ConnectedUsers) -> (r: TaskAction)
        requires
            old(users).wf(),
        ensures
            final(users).wf(),
            final(self).id() == old(self).id(),
            final(self).phase() == next_phase(old(self).phase(), event),
            final(users)@ == registry_after(old(users)@, old(self).id(), old(self).phase(), event),
            r.describes(final(self).phase()),
    {
        match self.phase {
            CountdownPhase::Running(value) => {
                match event {
                    TaskEvent::Delivered => {
                        if value == 0 {
                            self.phase = CountdownPhase::Done(TaskOutcome::Completed);
                            users.remove_user(&self.user_id);
                        } else {
                            self.phase = CountdownPhase::Running(value - 1);
                        }
                    },
                    TaskEvent::Rejected => {
                        self.phase = CountdownPhase::Done(TaskOutcome::Disconnected);
                        users.remove_user(&self.user_id);
                    },
                }
            },
            CountdownPhase::Done(_) => {},
        }
        Self::action(self.phase)
    }
}

/// Starts the countdown for `user_id`: registers the client before the
/// first value is handed out, and returns the task with its first action,
/// which sends `"360"`.
pub fn sync_timer(user_id: &String, users: &mut ConnectedUsers) -> (r: (CountdownTask, TaskAction))
    requires
        old(users).wf(),
    ensures
        final(users).wf(),
        final(users)@ == old(users)@.insert(user_id@),
        r.0.id() == user_id@,
        r.0.phase() == CountdownPhase::Running(COUNTDOWN_START),
        r.1.describes(r.0.phase()),
{
    users.insert_user(user_id);
    let task = CountdownTask { user_id: user_id.clone(), phase: CountdownPhase::Running(COUNTDOWN_START) };
    let action = CountdownTask::action(task.phase);
    (task, action)
}

/// The wire frame of one server-sent event that carries `text`.
pub open spec fn event_frame(text: Seq<char>) -> Seq<char> {
    seq!['d', 'a', 't', 'a', ':', ' '] + text + seq!['\n', '\n']
}

/// One step of the plain countdown stream, which keeps no registry: from
/// `timer`, it ends at zero, and otherwise moves to `timer - 1` and yields
/// that value's event frame.
pub fn sync_timer_old(timer: u16) -> (r: Option<(u16, String)>)
    ensures
        match r {
            Some((next, frame)) => timer > 0 && next == timer - 1 && frame@ == event_frame(
                decimal_text(next as nat),
            ),
            None => timer == 0,
        },
{
    if timer == 0 {
        return None;
    }
    let next = timer - 1;
    proof {
        reveal_strlit("data: ");
        reveal_strlit("\n\n");
    }
    let mut frame = String::from_str("data: ");
    let digits = decimal_string(next as u64);
    frame.append(digits.as_str());
    frame.append("\n\n");
    Some((next, frame))
}

} // verus!
