//! The function registry: who is asked first, who is asked next.

use swiboe::rpc::ErrorKind;
use swiboe::server::registry::Registry;

fn name(text: &str) -> String {
    text.to_string()
}

#[test]
fn empty_registry_has_no_handlers() {
    let registry = Registry::new();
    assert_eq!(registry.len(), 0);
    assert_eq!(registry.first_handler(&name("f")), None);
    assert_eq!(registry.next_handler(&name("f"), 1), None);
    assert!(!registry.has_function(&name("f")));
    assert!(!registry.is_registered(&name("f"), 1));
}

#[test]
fn register_then_find() {
    let mut registry = Registry::new();
    assert_eq!(registry.register(7, name("f"), 10), Ok(()));
    assert_eq!(registry.len(), 1);
    assert!(registry.has_function(&name("f")));
    assert!(registry.is_registered(&name("f"), 7));
    assert!(!registry.is_registered(&name("f"), 8));
    assert!(!registry.is_registered(&name("g"), 7));
    assert_eq!(registry.first_handler(&name("f")), Some(7));
    assert_eq!(registry.next_handler(&name("f"), 7), None);
}

#[test]
fn second_registration_of_a_function_by_a_peer_is_refused() {
    let mut registry = Registry::new();
    assert_eq!(registry.register(7, name("f"), 10), Ok(()));
    assert_eq!(registry.register(7, name("f"), 10), Err(ErrorKind::DuplicateFunctionForPeer));
    // Another priority does not help.
    assert_eq!(registry.register(7, name("f"), 3), Err(ErrorKind::DuplicateFunctionForPeer));
    assert_eq!(registry.len(), 1);
    assert_eq!(registry.first_handler(&name("f")), Some(7));
    // Another function and another peer are fine.
    assert_eq!(registry.register(7, name("g"), 10), Ok(()));
    assert_eq!(registry.register(8, name("f"), 10), Ok(()));
    assert_eq!(registry.len(), 3);
}

#[test]
fn handlers_are_asked_by_rising_priority_number() {
    let mut registry = Registry::new();
    assert_eq!(registry.register(1, name("f"), 30), Ok(()));
    assert_eq!(registry.register(2, name("f"), 10), Ok(()));
    assert_eq!(registry.register(3, name("f"), 20), Ok(()));
    assert_eq!(registry.register(4, name("g"), 1), Ok(()));
    assert_eq!(registry.first_handler(&name("f")), Some(2));
    assert_eq!(registry.next_handler(&name("f"), 2), Some(3));
    assert_eq!(registry.next_handler(&name("f"), 3), Some(1));
    assert_eq!(registry.next_handler(&name("f"), 1), None);
    assert_eq!(registry.first_handler(&name("g")), Some(4));
    assert_eq!(registry.next_handler(&name("g"), 4), None);
}

#[test]
fn among_equal_priorities_the_earliest_is_asked_first() {
    let mut registry = Registry::new();
    assert_eq!(registry.register(5, name("f"), 10), Ok(()));
    assert_eq!(registry.register(3, name("f"), 10), Ok(()));
    assert_eq!(registry.register(9, name("f"), 10), Ok(()));
    assert_eq!(registry.register(1, name("f"), 9), Ok(()));
    assert_eq!(registry.first_handler(&name("f")), Some(1));
    assert_eq!(registry.next_handler(&name("f"), 1), Some(5));
    assert_eq!(registry.next_handler(&name("f"), 5), Some(3));
    assert_eq!(registry.next_handler(&name("f"), 3), Some(9));
    assert_eq!(registry.next_handler(&name("f"), 9), None);
}

#[test]
fn extreme_priorities() {
    let mut registry = Registry::new();
    assert_eq!(registry.register(1, name("f"), 65535), Ok(()));
    assert_eq!(registry.register(2, name("f"), 0), Ok(()));
    assert_eq!(registry.register(3, name("f"), 65535), Ok(()));
    assert_eq!(registry.first_handler(&name("f")), Some(2));
    assert_eq!(registry.next_handler(&name("f"), 2), Some(1));
    assert_eq!(registry.next_handler(&name("f"), 1), Some(3));
}

#[test]
fn next_handler_of_a_peer_that_does_not_serve_the_function() {
    let mut registry = Registry::new();
    assert_eq!(registry.register(1, name("f"), 1), Ok(()));
    assert_eq!(registry.next_handler(&name("f"), 42), None);
}

#[test]
fn deregister_removes_every_registration_of_the_peer() {
    let mut registry = Registry::new();
    assert_eq!(registry.register(1, name("f"), 1), Ok(()));
    assert_eq!(registry.register(2, name("f"), 2), Ok(()));
    assert_eq!(registry.register(1, name("g"), 1), Ok(()));
    assert_eq!(registry.register(3, name("f"), 3), Ok(()));
    registry.deregister(1);
    assert_eq!(registry.len(), 2);
    assert!(!registry.has_function(&name("g")));
    assert_eq!(registry.first_handler(&name("f")), Some(2));
    assert_eq!(registry.next_handler(&name("f"), 2), Some(3));
    assert!(!registry.is_registered(&name("f"), 1));
    // The peer may register again afterwards.
    assert_eq!(registry.register(1, name("f"), 0), Ok(()));
    assert_eq!(registry.first_handler(&name("f")), Some(1));
}

#[test]
fn deregister_is_idempotent() {
    let mut registry = Registry::new();
    assert_eq!(registry.register(1, name("f"), 1), Ok(()));
    assert_eq!(registry.register(2, name("f"), 2), Ok(()));
    registry.deregister(1);
    registry.deregister(1);
    assert_eq!(registry.len(), 1);
    assert_eq!(registry.first_handler(&name("f")), Some(2));
    registry.deregister(77);
    assert_eq!(registry.len(), 1);
}

#[test]
fn function_names_are_compared_exactly() {
    let mut registry = Registry::new();
    assert_eq!(registry.register(1, name("buffer.open"), 1), Ok(()));
    assert!(!registry.has_function(&name("buffer.Open")));
    assert!(!registry.has_function(&name("buffer.open ")));
    assert!(!registry.has_function(&name("")));
    assert_eq!(registry.register(1, name(""), 1), Ok(()));
    assert!(registry.has_function(&name("")));
    assert_eq!(registry.register(2, name("grüße"), 1), Ok(()));
    assert_eq!(registry.first_handler(&name("grüße")), Some(2));
}
