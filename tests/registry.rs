use test_timer::answers::{connected_users, save_answers, AnswerVerdict};
use test_timer::decimal::decimal_string;
use test_timer::registry::ConnectedUsers;

fn id(s: &str) -> String {
    s.to_string()
}

#[test]
fn new_registry_is_empty() {
    let mut users = ConnectedUsers::new();
    assert_eq!(users.get_connect_users_count(), 0);
    assert!(!users.has_user(&id("u1")));
}

#[test]
fn insert_is_idempotent() {
    let mut users = ConnectedUsers::new();
    users.insert_user(&id("u1"));
    users.insert_user(&id("u1"));
    assert!(users.has_user(&id("u1")));
    assert_eq!(users.get_connect_users_count(), 1);
}

#[test]
fn remove_absent_is_noop() {
    let mut users = ConnectedUsers::new();
    users.insert_user(&id("u1"));
    users.remove_user(&id("u2"));
    assert!(users.has_user(&id("u1")));
    assert_eq!(users.get_connect_users_count(), 1);
}

#[test]
fn remove_present_and_empty_again() {
    let mut users = ConnectedUsers::new();
    users.insert_user(&id("a"));
    users.insert_user(&id("b"));
    users.insert_user(&id("c"));
    users.remove_user(&id("b"));
    assert!(users.has_user(&id("a")));
    assert!(!users.has_user(&id("b")));
    assert!(users.has_user(&id("c")));
    assert_eq!(users.get_connect_users_count(), 2);
    users.remove_user(&id("a"));
    users.remove_user(&id("c"));
    users.remove_user(&id("c"));
    assert_eq!(users.get_connect_users_count(), 0);
    users.insert_user(&id("a"));
    assert_eq!(users.get_connect_users_count(), 1);
}

#[test]
fn ids_are_compared_whole() {
    let mut users = ConnectedUsers::new();
    users.insert_user(&id("u1"));
    assert!(!users.has_user(&id("u")));
    assert!(!users.has_user(&id("u10")));
    assert!(!users.has_user(&id("")));
}

#[test]
fn answers_from_unknown_client_are_rejected() {
    let mut users = ConnectedUsers::new();
    users.insert_user(&id("other"));
    assert_eq!(save_answers(&users, &id("u1")), AnswerVerdict::Rejected);
}

#[test]
fn answers_from_registered_client_are_accepted() {
    let mut users = ConnectedUsers::new();
    users.insert_user(&id("u1"));
    assert_eq!(save_answers(&users, &id("u1")), AnswerVerdict::Accepted);
    assert!(users.has_user(&id("u1")));
}

#[test]
fn connected_users_counts_in_decimal() {
    let mut users = ConnectedUsers::new();
    assert_eq!(connected_users(&mut users), "0");
    for i in 0..12 {
        users.insert_user(&format!("client-{}", i));
    }
    assert_eq!(connected_users(&mut users), "12");
    assert_eq!(users.get_connect_users_count(), 12);
}

#[test]
fn decimal_rendering() {
    assert_eq!(decimal_string(0), "0");
    assert_eq!(decimal_string(7), "7");
    assert_eq!(decimal_string(10), "10");
    assert_eq!(decimal_string(360), "360");
    assert_eq!(decimal_string(1234567890), "1234567890");
    assert_eq!(decimal_string(u64::MAX), u64::MAX.to_string());
}
