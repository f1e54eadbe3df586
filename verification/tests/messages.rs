use roguelike::entity::Color;
use roguelike::log::{MSG_HEIGHT, Messages, log_message};

#[test]
fn log_keeps_only_last_capacity_lines() {
    // Appending more lines than the capacity leaves exactly the last
    // `capacity` lines, oldest first.
    let mut messages = Messages::new(3);
    for i in 1..=5 {
        log_message(&mut messages, format!("line {}", i), Color::white());
    }
    assert_eq!(messages.len(), 3);
    assert_eq!(messages.line(0).0, "line 3");
    assert_eq!(messages.line(1).0, "line 4");
    assert_eq!(messages.line(2).0, "line 5");
}

#[test]
fn log_below_capacity_keeps_everything() {
    let mut messages = Messages::new(MSG_HEIGHT);
    log_message(&mut messages, "first".to_string(), Color::red());
    log_message(&mut messages, "second".to_string(), Color::orange());
    assert_eq!(messages.len(), 2);
    assert_eq!(messages.line(0).0, "first");
    assert_eq!(messages.line(0).1, Color::red());
    assert_eq!(messages.line(1).0, "second");
    assert_eq!(messages.line(1).1, Color::orange());
}

#[test]
fn log_at_exact_capacity_evicts_one() {
    let mut messages = Messages::new(2);
    log_message(&mut messages, "a".to_string(), Color::white());
    log_message(&mut messages, "b".to_string(), Color::white());
    log_message(&mut messages, "c".to_string(), Color::white());
    assert_eq!(messages.len(), 2);
    assert_eq!(messages.line(0).0, "b");
    assert_eq!(messages.line(1).0, "c");
}
