use charon_core::app_manager::{AppManager, AppMsg, Routed};
use charon_core::event::{DomainEvent, Mode, Modifiers};

fn manager() -> AppManager<u32> {
    AppManager::new(
        vec![
            ("charonsay".to_string(), 1),
            ("menu".to_string(), 2),
            ("editor".to_string(), 3),
        ],
        "charonsay".to_string(),
    )
}

#[test]
fn new_manager_is_awake_and_shows_the_given_app() {
    let manager = manager();
    assert_eq!(manager.render(), Some(&1));
    let other = AppManager::new(vec![("a".to_string(), 7), ("b".to_string(), 8)], "b".to_string());
    assert_eq!(other.render(), Some(&8));
}

#[test]
fn has_app_knows_the_registered_names() {
    let manager = manager();
    assert!(manager.has_app("charonsay"));
    assert!(manager.has_app("menu"));
    assert!(manager.has_app("editor"));
    assert!(!manager.has_app("Menu"));
    assert!(!manager.has_app(""));
    let empty: AppManager<u32> = AppManager::new(Vec::new(), "menu".to_string());
    assert!(!empty.has_app("menu"));
}

#[test]
fn set_active_switches_to_a_known_app_only() {
    let mut manager = manager();
    assert!(manager.set_active("editor"));
    assert_eq!(manager.render(), Some(&3));
    assert!(!manager.set_active("missing"));
    assert_eq!(manager.render(), Some(&3));
    assert!(manager.set_active("menu"));
    assert_eq!(manager.render(), Some(&2));
}

#[test]
fn mode_change_brings_the_screen_of_the_mode_to_the_front() {
    let mut manager = manager();
    let to_app = AppMsg::Backend(DomainEvent::ModeChange(Mode::InApp));
    assert_eq!(manager.update(&to_app), Routed::Render);
    assert_eq!(manager.render(), Some(&2));
    let back = AppMsg::Backend(DomainEvent::ModeChange(Mode::PassThrough));
    assert_eq!(manager.update(&back), Routed::Render);
    assert_eq!(manager.render(), Some(&1));
}

#[test]
fn mode_screens() {
    assert_eq!(AppManager::<u32>::mode_screen(&Mode::PassThrough), "charonsay");
    assert_eq!(AppManager::<u32>::mode_screen(&Mode::InApp), "menu");
}

#[test]
fn sleep_turns_the_screen_off_and_wake_up_on() {
    let mut manager = manager();
    let key = AppMsg::Backend(DomainEvent::KeyPress(30, Modifiers::none()));
    assert_eq!(manager.update(&key), Routed::Forward);
    assert_eq!(manager.update(&AppMsg::Backend(DomainEvent::Sleep)), Routed::Dropped);
    assert_eq!(manager.render(), None);
    assert_eq!(manager.update(&key), Routed::Dropped);
    assert_eq!(manager.update(&AppMsg::TimerTick(500)), Routed::Dropped);
    assert_eq!(manager.update(&AppMsg::Backend(DomainEvent::WakeUp)), Routed::Dropped);
    assert_eq!(manager.render(), Some(&1));
    assert_eq!(manager.update(&key), Routed::Forward);
    assert_eq!(manager.update(&AppMsg::TimerTick(500)), Routed::Forward);
}

#[test]
fn mode_change_is_taken_while_asleep() {
    let mut manager = manager();
    manager.update(&AppMsg::Backend(DomainEvent::Sleep));
    let to_app = AppMsg::Backend(DomainEvent::ModeChange(Mode::InApp));
    assert_eq!(manager.update(&to_app), Routed::Render);
    assert_eq!(manager.render(), None);
    manager.update(&AppMsg::Backend(DomainEvent::WakeUp));
    assert_eq!(manager.render(), Some(&2));
}

#[test]
fn messages_are_dropped_when_no_app_is_in_front() {
    let mut manager: AppManager<u32> =
        AppManager::new(vec![("editor".to_string(), 3)], "charonsay".to_string());
    assert_eq!(manager.render(), None);
    assert_eq!(manager.update(&AppMsg::Activate), Routed::Dropped);
    assert_eq!(manager.update(&AppMsg::Deactivate), Routed::Dropped);
    assert!(manager.active_app_mut().is_none());
    assert!(manager.set_active("editor"));
    assert_eq!(manager.update(&AppMsg::Activate), Routed::Forward);
}

#[test]
fn the_app_in_front_can_be_changed_in_place() {
    let mut manager = manager();
    *manager.active_app_mut().unwrap() = 10;
    assert_eq!(manager.render(), Some(&10));
    manager.set_active("menu");
    *manager.active_app_mut().unwrap() += 5;
    assert_eq!(manager.render(), Some(&7));
    manager.set_active("charonsay");
    assert_eq!(manager.render(), Some(&10));
    manager.update(&AppMsg::Backend(DomainEvent::Sleep));
    assert_eq!(manager.active_app_mut(), Some(&mut 10));
}

#[test]
fn first_entry_counts_where_a_name_is_given_twice() {
    let mut manager =
        AppManager::new(vec![("menu".to_string(), 1), ("menu".to_string(), 2)], "menu".to_string());
    assert_eq!(manager.render(), Some(&1));
    assert_eq!(manager.active_app_mut(), Some(&mut 1));
}
