use charon_core::event::{DomainEvent, Mode, Modifiers, StatsSnapshot};
use charon_core::topic::{topic_of, Topic};

fn every_variant() -> Vec<(DomainEvent, Topic)> {
    let stats = StatsSnapshot { total: 10, today: 3, wpm: 42, max_wpm: 90 };
    vec![
        (DomainEvent::KeyPress(30, Modifiers::none()), Topic::KeyInput),
        (DomainEvent::KeyRelease(30, Modifiers { bits: 2 }), Topic::KeyInput),
        (DomainEvent::HidReport(vec![0, 0, 4, 0, 0, 0, 0, 0]), Topic::KeyOutput),
        (DomainEvent::SendText("hello".to_string()), Topic::TextInput),
        (DomainEvent::SendFile("/tmp/notes.txt".to_string(), true), Topic::TextInput),
        (DomainEvent::TextSent, Topic::Monitoring),
        (DomainEvent::CurrentStats(stats), Topic::Stats),
        (DomainEvent::ModeChange(Mode::InApp), Topic::System),
        (DomainEvent::Exit, Topic::System),
        (DomainEvent::Sleep, Topic::System),
        (DomainEvent::WakeUp, Topic::System),
        (DomainEvent::ReportSent(), Topic::Telemetry),
    ]
}

#[test]
fn every_variant_has_its_topic() {
    let cases = every_variant();
    assert_eq!(cases.len(), 12);
    for (event, topic) in cases {
        assert_eq!(topic_of(&event), topic);
    }
}

#[test]
fn conversion_agrees_with_topic_of() {
    for (event, topic) in every_variant() {
        assert_eq!(Topic::from(&event), topic);
    }
}

#[test]
fn equal_events_have_equal_topics_however_often_asked() {
    for (event, _) in every_variant() {
        let copy = event.clone();
        assert_eq!(copy, event);
        let first = topic_of(&event);
        assert_eq!(topic_of(&event), first);
        assert_eq!(topic_of(&copy), first);
    }
}

#[test]
fn fields_do_not_change_the_topic() {
    assert_eq!(topic_of(&DomainEvent::KeyPress(0, Modifiers::none())), Topic::KeyInput);
    assert_eq!(topic_of(&DomainEvent::KeyPress(65535, Modifiers { bits: 255 })), Topic::KeyInput);
    assert_eq!(topic_of(&DomainEvent::HidReport(Vec::new())), Topic::KeyOutput);
    assert_eq!(topic_of(&DomainEvent::SendText(String::new())), Topic::TextInput);
    assert_eq!(topic_of(&DomainEvent::ModeChange(Mode::PassThrough)), Topic::System);
}
