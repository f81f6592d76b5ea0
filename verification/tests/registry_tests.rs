use courtyard_core::registry::{KeyedRegistry, PrimarySlot};

#[test]
fn cancel_returns_group_and_direct_targets() {
    let mut reg = KeyedRegistry::new();
    reg.register(String::from("org/model-a"), 4242);
    let plan = reg.cancel("org/model-a").ok().expect("tracked key must cancel");
    assert_eq!(plan.group_target, -4242);
    assert_eq!(plan.process_target, 4242);
}

#[test]
fn cancel_clears_the_entry() {
    let mut reg = KeyedRegistry::new();
    reg.register(String::from("org/model-a"), 4242);
    assert!(reg.cancel("org/model-a").is_ok());
    assert!(reg.cancel("org/model-a").is_err());
    assert!(reg.lookup("org/model-a").is_none());
}

#[test]
fn cancel_of_untracked_key_is_a_miss() {
    let mut reg = KeyedRegistry::new();
    assert!(reg.cancel("nothing-here").is_err());
}

#[test]
fn register_overwrites_last_writer_wins() {
    let mut reg = KeyedRegistry::new();
    reg.register(String::from("org/model-a"), 100);
    reg.register(String::from("org/model-a"), 200);
    assert_eq!(reg.lookup("org/model-a"), Some(200));
}

#[test]
fn independent_keys_cancel_independently() {
    let mut reg = KeyedRegistry::new();
    reg.register(String::from("org/model-a"), 100);
    reg.register(String::from("org/model-b"), 200);
    let plan = reg.cancel("org/model-a").ok().unwrap();
    assert_eq!(plan.process_target, 100);
    assert_eq!(reg.lookup("org/model-b"), Some(200));
}

#[test]
fn deregister_on_absent_key_is_a_no_op() {
    let mut reg = KeyedRegistry::new();
    reg.register(String::from("org/model-a"), 100);
    reg.deregister("never-registered");
    assert_eq!(reg.lookup("org/model-a"), Some(100));
    reg.deregister("org/model-a");
    assert!(reg.lookup("org/model-a").is_none());
    reg.deregister("org/model-a");
    assert!(reg.lookup("org/model-a").is_none());
}

#[test]
fn primary_slot_round_trip() {
    let mut slot = PrimarySlot::new();
    assert!(slot.take_for_stop().is_err());
    slot.track(555);
    let plan = slot.take_for_stop().ok().expect("tracked primary must stop");
    assert_eq!(plan.group_target, -555);
    assert_eq!(plan.process_target, 555);
    assert!(slot.take_for_stop().is_err());
}

#[test]
fn primary_slot_clear_is_idempotent() {
    let mut slot = PrimarySlot::new();
    slot.track(9);
    slot.clear();
    slot.clear();
    assert!(slot.take_for_stop().is_err());
}

#[test]
fn primary_slot_last_writer_wins() {
    let mut slot = PrimarySlot::new();
    slot.track(9);
    slot.track(10);
    let plan = slot.take_for_stop().ok().unwrap();
    assert_eq!(plan.process_target, 10);
}
