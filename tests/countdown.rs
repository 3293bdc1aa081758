use test_timer::answers::{save_answers, AnswerVerdict};
use test_timer::countdown::{
    sync_timer, sync_timer_old, CountdownPhase, CountdownTask, TaskAction, TaskEvent, TaskOutcome,
};
use test_timer::registry::ConnectedUsers;

fn id(s: &str) -> String {
    s.to_string()
}

fn sent(action: &TaskAction) -> String {
    match action {
        TaskAction::Send(text) => text.clone(),
        TaskAction::Stop(outcome) => panic!("expected a value, got Stop({:?})", outcome),
    }
}

fn deliver_until(task: &mut CountdownTask, first: TaskAction, users: &mut ConnectedUsers, last: &str) -> Vec<String> {
    let mut texts = vec![sent(&first)];
    while texts.last().map(|t| t.as_str()) != Some(last) {
        let action = task.step(TaskEvent::Delivered, users);
        texts.push(sent(&action));
    }
    texts
}

#[test]
fn start_sends_360_and_registers() {
    let mut users = ConnectedUsers::new();
    let (task, first) = sync_timer(&id("u1"), &mut users);
    assert_eq!(sent(&first), "360");
    assert_eq!(task.phase(), CountdownPhase::Running(360));
    assert!(users.has_user(&id("u1")));
}

#[test]
fn completed_countdown_sends_every_value_once() {
    let mut users = ConnectedUsers::new();
    let (mut task, first) = sync_timer(&id("u1"), &mut users);
    let texts = deliver_until(&mut task, first, &mut users, "0");
    let expected: Vec<String> = (0..=360).rev().map(|i: u32| i.to_string()).collect();
    assert_eq!(texts, expected);
    assert!(users.has_user(&id("u1")));
    match task.step(TaskEvent::Delivered, &mut users) {
        TaskAction::Stop(outcome) => assert_eq!(outcome, TaskOutcome::Completed),
        TaskAction::Send(text) => panic!("unexpected value {}", text),
    }
    assert_eq!(task.phase(), CountdownPhase::Done(TaskOutcome::Completed));
    assert!(!users.has_user(&id("u1")));
    assert_eq!(save_answers(&users, &id("u1")), AnswerVerdict::Rejected);
}

#[test]
fn disconnect_at_300_deregisters_and_stops() {
    let mut users = ConnectedUsers::new();
    let (mut task, first) = sync_timer(&id("u1"), &mut users);
    assert_eq!(sent(&first), "360");
    assert!(users.has_user(&id("u1")));
    let texts = deliver_until(&mut task, first, &mut users, "300");
    assert_eq!(texts.len(), 61);
    match task.step(TaskEvent::Rejected, &mut users) {
        TaskAction::Stop(outcome) => assert_eq!(outcome, TaskOutcome::Disconnected),
        TaskAction::Send(text) => panic!("unexpected value {}", text),
    }
    assert!(!users.has_user(&id("u1")));
    for event in [TaskEvent::Delivered, TaskEvent::Rejected, TaskEvent::Delivered] {
        match task.step(event, &mut users) {
            TaskAction::Stop(outcome) => assert_eq!(outcome, TaskOutcome::Disconnected),
            TaskAction::Send(text) => panic!("unexpected value {}", text),
        }
    }
    assert!(!users.has_user(&id("u1")));
}

#[test]
fn disconnect_on_first_value() {
    let mut users = ConnectedUsers::new();
    let (mut task, _first) = sync_timer(&id("u1"), &mut users);
    match task.step(TaskEvent::Rejected, &mut users) {
        TaskAction::Stop(outcome) => assert_eq!(outcome, TaskOutcome::Disconnected),
        TaskAction::Send(text) => panic!("unexpected value {}", text),
    }
    assert_eq!(users.get_connect_users_count(), 0);
}

#[test]
fn disconnect_on_last_value() {
    let mut users = ConnectedUsers::new();
    let (mut task, first) = sync_timer(&id("u1"), &mut users);
    deliver_until(&mut task, first, &mut users, "0");
    task.step(TaskEvent::Rejected, &mut users);
    assert_eq!(task.phase(), CountdownPhase::Done(TaskOutcome::Disconnected));
    assert!(!users.has_user(&id("u1")));
}

#[test]
fn active_stream_answers_are_accepted() {
    let mut users = ConnectedUsers::new();
    let (mut task, _first) = sync_timer(&id("u1"), &mut users);
    task.step(TaskEvent::Delivered, &mut users);
    assert_eq!(save_answers(&users, &id("u1")), AnswerVerdict::Accepted);
    assert_eq!(save_answers(&users, &id("u2")), AnswerVerdict::Rejected);
}

#[test]
fn distinct_clients_interleave_independently() {
    let mut users = ConnectedUsers::new();
    let (mut a, first_a) = sync_timer(&id("a"), &mut users);
    let (mut b, first_b) = sync_timer(&id("b"), &mut users);
    let mut seen_a = vec![sent(&first_a)];
    let mut seen_b = vec![sent(&first_b)];
    for _ in 0..100 {
        seen_a.push(sent(&a.step(TaskEvent::Delivered, &mut users)));
        seen_a.push(sent(&a.step(TaskEvent::Delivered, &mut users)));
        seen_b.push(sent(&b.step(TaskEvent::Delivered, &mut users)));
    }
    let expected_a: Vec<String> = (160..=360).rev().map(|i: u32| i.to_string()).collect();
    let expected_b: Vec<String> = (260..=360).rev().map(|i: u32| i.to_string()).collect();
    assert_eq!(seen_a, expected_a);
    assert_eq!(seen_b, expected_b);
    b.step(TaskEvent::Rejected, &mut users);
    assert!(users.has_user(&id("a")));
    assert!(!users.has_user(&id("b")));
    assert_eq!(sent(&a.step(TaskEvent::Delivered, &mut users)), "159");
}

#[test]
fn shared_id_is_removed_by_the_first_task_to_end() {
    let mut users = ConnectedUsers::new();
    let (mut first_task, _) = sync_timer(&id("u1"), &mut users);
    let (mut second_task, _) = sync_timer(&id("u1"), &mut users);
    assert_eq!(users.get_connect_users_count(), 1);
    first_task.step(TaskEvent::Rejected, &mut users);
    assert!(!users.has_user(&id("u1")));
    assert_eq!(sent(&second_task.step(TaskEvent::Delivered, &mut users)), "359");
}

#[test]
fn plain_countdown_step() {
    assert_eq!(sync_timer_old(360), Some((359, "data: 359\n\n".to_string())));
    assert_eq!(sync_timer_old(1), Some((0, "data: 0\n\n".to_string())));
    assert_eq!(sync_timer_old(0), None);
}
