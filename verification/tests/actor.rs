use charon_core::actor::{next_turn, pipeline_turn, Relay, Turn};
use charon_core::event::{DomainEvent, Event, Mode, Modifiers};
use charon_core::pipeline::{run_chain, Processor};

fn press(code: u16) -> Event {
    Event::new("kbd".to_string(), DomainEvent::KeyPress(code, Modifiers::none()))
}

fn exit() -> Event {
    Event::new("broker".to_string(), DomainEvent::Exit)
}

#[test]
fn exit_ends_the_loop() {
    assert!(matches!(next_turn(Some(exit())), Turn::Stop));
    let from_elsewhere = Event::new("client".to_string(), DomainEvent::Exit);
    assert!(matches!(next_turn(Some(from_elsewhere)), Turn::Stop));
}

#[test]
fn closed_channel_ends_the_loop() {
    assert!(matches!(next_turn(None), Turn::Stop));
}

#[test]
fn other_events_are_handled() {
    match next_turn(Some(press(30))) {
        Turn::Handle(event) => assert_eq!(event, press(30)),
        Turn::Stop => panic!("a key press does not end the loop"),
    }
    let change = Event::new("daemon".to_string(), DomainEvent::ModeChange(Mode::InApp));
    match next_turn(Some(change.clone())) {
        Turn::Handle(event) => assert_eq!(event, change),
        Turn::Stop => panic!("a change of mode does not end the loop"),
    }
}

#[test]
fn relay_hands_the_event_on() {
    let mut relay = Relay;
    assert_eq!(relay.process(press(1)), vec![press(1)]);
    let mut chain = vec![Relay, Relay, Relay];
    assert_eq!(run_chain(&mut chain, press(2)), vec![press(2)]);
}

#[test]
fn pipeline_turn_publishes_what_survives() {
    let mut chain = vec![Relay, Relay];
    assert_eq!(pipeline_turn(&mut chain, Some(press(3))), Some(vec![press(3)]));
    assert_eq!(pipeline_turn(&mut chain, Some(exit())), None);
    assert_eq!(pipeline_turn(&mut chain, None), None);
    let mut empty: Vec<Relay> = Vec::new();
    assert_eq!(pipeline_turn(&mut empty, Some(press(4))), Some(vec![press(4)]));
}
