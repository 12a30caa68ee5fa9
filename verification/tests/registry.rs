use rotor::slots::Registry;
use rotor::token::Token;

#[test]
fn new_registry_is_empty() {
    let registry: Registry<&str> = Registry::new(8);
    assert_eq!(registry.capacity(), 8);
    assert_eq!(registry.count(), 0);
    assert_eq!(registry.counter_next(), 0);
    assert_eq!(registry.generation(0), None);
    assert!(!registry.contains(Token::from_mio(0)));
}

#[test]
fn insert_stamps_generations_in_order() {
    let mut registry = Registry::new(8);
    let a = registry.insert("a").unwrap();
    let b = registry.insert("b").unwrap();
    let c = registry.insert("c").unwrap();
    assert_eq!(a.counter(), Some(0));
    assert_eq!(b.counter(), Some(1));
    assert_eq!(c.counter(), Some(2));
    assert_eq!(registry.counter_next(), 3);
    assert_eq!(registry.count(), 3);
    assert_ne!(a.as_usize(), b.as_usize());
    assert_ne!(b.as_usize(), c.as_usize());
    assert_ne!(a.as_usize(), c.as_usize());
    assert_eq!(registry.get_for_dispatch(a), Some(&"a"));
    assert_eq!(registry.get_for_dispatch(b), Some(&"b"));
    assert_eq!(registry.get_for_dispatch(c), Some(&"c"));
    assert_eq!(registry.generation(b.as_usize()), Some(1));
}

#[test]
fn stale_token_never_matches_a_reused_slot() {
    let mut registry = Registry::new(4);
    let old = registry.insert("first").unwrap();
    assert_eq!(registry.remove(old.as_usize()), Some("first"));
    assert!(!registry.contains(old));

    let new = registry.insert("second").unwrap();
    assert_eq!(new.as_usize(), old.as_usize());
    assert_eq!(new.counter(), Some(1));
    assert!(registry.contains(new));
    assert!(!registry.contains(old));
    assert_eq!(registry.get_for_dispatch(old), None);
    assert_eq!(registry.get_for_dispatch(new), Some(&"second"));
}

#[test]
fn stale_token_stays_stale_over_many_changes() {
    let mut registry = Registry::new(3);
    let old = registry.insert(0u32).unwrap();
    registry.remove(old.as_usize());
    for round in 1..50u32 {
        let a = registry.insert(round).unwrap();
        let b = registry.insert(round + 1000).unwrap();
        assert!(!registry.contains(old));
        assert_eq!(registry.get_for_dispatch(old), None);
        assert_ne!(a.counter(), old.counter());
        assert_ne!(b.counter(), old.counter());
        registry.remove(b.as_usize());
        registry.remove(a.as_usize());
        assert!(!registry.contains(a));
        assert!(!registry.contains(b));
    }
}

#[test]
fn bare_token_matches_whatever_occupies_the_slot() {
    let mut registry = Registry::new(4);
    let first = registry.insert("first").unwrap();
    let bare = Token::from_mio(first.as_usize());
    assert!(registry.contains(bare));
    registry.remove(first.as_usize());
    assert!(!registry.contains(bare));
    registry.insert("second").unwrap();
    assert_eq!(registry.get_for_dispatch(bare), Some(&"second"));
}

#[test]
fn full_registry_hands_the_machine_back() {
    let mut registry = Registry::new(2);
    registry.insert("a").unwrap();
    registry.insert("b").unwrap();
    assert_eq!(registry.insert("c"), Err("c"));
    assert_eq!(registry.count(), 2);
    assert_eq!(registry.counter_next(), 2);
}

#[test]
fn registry_without_slots_takes_nothing() {
    let mut registry = Registry::new(0);
    assert_eq!(registry.insert(1u8), Err(1u8));
    assert_eq!(registry.count(), 0);
    assert_eq!(registry.remove(0), None);
    assert!(!registry.contains(Token::from_mio(0)));
}

#[test]
fn freed_slot_makes_room_again() {
    let mut registry = Registry::new(2);
    let a = registry.insert("a").unwrap();
    registry.insert("b").unwrap();
    assert_eq!(registry.insert("c"), Err("c"));
    registry.remove(a.as_usize());
    let c = registry.insert("c").unwrap();
    assert_eq!(c.as_usize(), a.as_usize());
    assert_eq!(c.counter(), Some(2));
}

#[test]
fn remove_of_a_free_slot_changes_nothing() {
    let mut registry = Registry::new(4);
    let a = registry.insert("a").unwrap();
    assert_eq!(registry.remove(3), None);
    assert_eq!(registry.remove(100), None);
    assert_eq!(registry.count(), 1);
    assert_eq!(registry.remove(a.as_usize()), Some("a"));
    assert_eq!(registry.remove(a.as_usize()), None);
    assert_eq!(registry.count(), 0);
}

#[test]
fn remove_frees_whatever_the_generation() {
    let mut registry = Registry::new(4);
    let a = registry.insert("a").unwrap();
    registry.remove(a.as_usize());
    let b = registry.insert("b").unwrap();
    assert_eq!(b.as_usize(), a.as_usize());
    assert_eq!(registry.remove(a.as_usize()), Some("b"));
    assert!(!registry.contains(b));
}

#[test]
fn take_holds_the_slot_until_restore() {
    let mut registry = Registry::new(2);
    let a = registry.insert("a").unwrap();
    let slot = registry.take(a).unwrap();
    assert_eq!(slot.machine, "a");
    assert_eq!(slot.counter, 0);
    assert!(!registry.contains(a));
    assert_eq!(registry.count(), 1);

    let b = registry.insert("b").unwrap();
    assert_ne!(b.as_usize(), a.as_usize());
    assert_eq!(registry.insert("c"), Err("c"));

    registry.restore(a.as_usize(), Some("a2"));
    assert!(registry.contains(a));
    assert_eq!(registry.get_for_dispatch(a), Some(&"a2"));
    assert_eq!(registry.generation(a.as_usize()), Some(0));
}

#[test]
fn restore_of_nothing_frees_the_slot() {
    let mut registry = Registry::new(2);
    let a = registry.insert("a").unwrap();
    registry.take(a).unwrap();
    registry.restore(a.as_usize(), None);
    assert!(!registry.contains(a));
    assert_eq!(registry.count(), 0);
    assert_eq!(registry.generation(a.as_usize()), None);
}

#[test]
fn take_of_a_stale_token_changes_nothing() {
    let mut registry = Registry::new(2);
    let a = registry.insert("a").unwrap();
    registry.remove(a.as_usize());
    let b = registry.insert("b").unwrap();
    assert!(registry.take(a).is_none());
    assert!(registry.take(Token::new(1, 0)).is_none());
    assert!(registry.take(Token::from_mio(77)).is_none());
    assert_eq!(registry.count(), 1);
    assert_eq!(registry.get_for_dispatch(b), Some(&"b"));
}

#[test]
fn reservation_given_up_leaves_no_trace() {
    let mut registry: Registry<&str> = Registry::new(2);
    registry.insert("a").unwrap();
    let reserved = registry.reserve().unwrap();
    assert_eq!(reserved.counter(), Some(1));
    assert_eq!(registry.counter_next(), 1);

    registry.settle(reserved.as_usize(), None);
    assert!(!registry.contains(reserved));
    assert_eq!(registry.counter_next(), 1);
    assert_eq!(registry.count(), 1);

    let b = registry.insert("b").unwrap();
    assert_eq!(b, reserved);
}

#[test]
fn reservation_settled_with_a_machine_is_an_insertion() {
    let mut registry = Registry::new(2);
    let reserved = registry.reserve().unwrap();
    registry.settle(reserved.as_usize(), Some("a"));
    assert!(registry.contains(reserved));
    assert_eq!(registry.get_for_dispatch(reserved), Some(&"a"));
    assert_eq!(registry.counter_next(), 1);
}

#[test]
fn reserve_fails_on_a_full_registry() {
    let mut registry = Registry::new(1);
    registry.insert("a").unwrap();
    assert!(registry.reserve().is_none());
    assert_eq!(registry.counter_next(), 1);
}

#[test]
fn replace_with_writes_back_what_the_callback_returns() {
    let mut registry = Registry::new(4);
    let a = registry.insert(1u32).unwrap();
    let kept = registry.replace_with(a, |machine, _registry| Some(machine + 10));
    assert_eq!(kept, Some(true));
    assert_eq!(registry.get_for_dispatch(a), Some(&11));

    let kept = registry.replace_with(a, |_machine, _registry| None);
    assert_eq!(kept, Some(false));
    assert!(!registry.contains(a));
    assert_eq!(registry.count(), 0);
}

#[test]
fn replace_with_lets_the_callback_insert_elsewhere() {
    let mut registry = Registry::new(4);
    let a = registry.insert(1u32).unwrap();
    let mut spawned = None;
    let kept = registry.replace_with(a, |machine, registry| {
        spawned = Some(registry.insert(2).unwrap());
        Some(machine)
    });
    assert_eq!(kept, Some(true));
    let b = spawned.unwrap();
    assert_ne!(b.as_usize(), a.as_usize());
    assert_eq!(registry.get_for_dispatch(a), Some(&1));
    assert_eq!(registry.get_for_dispatch(b), Some(&2));
}

#[test]
fn replace_with_on_a_stale_token_calls_nothing() {
    let mut registry = Registry::new(4);
    let a = registry.insert(1u32).unwrap();
    registry.remove(a.as_usize());
    let mut called = false;
    let kept = registry.replace_with(a, |machine, _registry| {
        called = true;
        Some(machine)
    });
    assert_eq!(kept, None);
    assert!(!called);
    assert_eq!(registry.count(), 0);
}

#[test]
fn counter_moves_on_only_when_a_machine_moves_in() {
    let mut registry = Registry::new(4);
    assert_eq!(registry.counter_next(), 0);
    let reserved = registry.reserve().unwrap();
    assert_eq!(registry.counter_next(), 0);
    registry.settle(reserved.as_usize(), Some("a"));
    assert_eq!(registry.counter_next(), 1);
    assert_eq!(reserved.counter(), Some(0));
    assert_eq!(registry.generation(reserved.as_usize()), Some(0));
}

#[test]
fn counter_never_goes_back_when_a_machine_leaves() {
    let mut registry = Registry::new(4);
    let a = registry.insert("a").unwrap();
    assert_eq!(registry.counter_next(), 1);
    registry.take(a).unwrap();
    registry.restore(a.as_usize(), None);
    assert_eq!(registry.counter_next(), 1);
    let b = registry.insert("b").unwrap();
    assert_eq!(b.as_usize(), a.as_usize());
    assert_eq!(b.counter(), Some(1));
    assert!(!registry.contains(a));
    assert_eq!(registry.remove(b.as_usize()), Some("b"));
    assert_eq!(registry.counter_next(), 2);
    let reserved = registry.reserve().unwrap();
    registry.settle(reserved.as_usize(), None);
    assert_eq!(registry.counter_next(), 2);
    assert!(!registry.contains(a));
    assert!(!registry.contains(b));
}
