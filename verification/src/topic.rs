//! The routing category of an event.

use vstd::prelude::*;
use vstd::std_specs::convert::FromSpecImpl;
use crate::event::{DomainEvent, DomainEventView};

verus! {

/// A coarse routing category. Every event belongs to exactly one.
#[derive(Clone, Copy, Debug, PartialEq, Eq, Structural)]
pub enum Topic {
    System,
    TextInput,
    KeyInput,
    KeyOutput,
    Stats,
    Monitoring,
    Telemetry,
}

/// The topic that an event with the given payload is routed under.
pub open spec fn topic_of_view(payload: DomainEventView) -> Topic {
    match payload {
        DomainEventView::KeyPress(..) | DomainEventView::KeyRelease(..) => Topic::KeyInput,
        DomainEventView::HidReport(_) => Topic::KeyOutput,
        DomainEventView::SendText(_) | DomainEventView::SendFile(..) => Topic::TextInput,
        DomainEventView::TextSent => Topic::Monitoring,
        DomainEventView::CurrentStats(_) => Topic::Stats,
        DomainEventView::ModeChange(_)
        | DomainEventView::Exit
        | DomainEventView::Sleep
        | DomainEventView::WakeUp => Topic::System,
        DomainEventView::ReportSent => Topic::Telemetry,
    }
}

/// Classifies an event: total, and the same topic for equal payloads.
pub fn topic_of(event: &DomainEvent) -> (topic: Topic)
    ensures
        topic == topic_of_view(event@),
{
    match event {
        DomainEvent::KeyPress(..) => Topic::KeyInput,
        DomainEvent::KeyRelease(..) => Topic::KeyInput,
        DomainEvent::HidReport(_) => Topic::KeyOutput,
        DomainEvent::SendText(_) => Topic::TextInput,
        DomainEvent::SendFile(..) => Topic::TextInput,
        DomainEvent::TextSent => Topic::Monitoring,
        DomainEvent::CurrentStats(_) => Topic::Stats,
        DomainEvent::ModeChange(_) => Topic::System,
        DomainEvent::Exit => Topic::System,
        DomainEvent::Sleep => Topic::System,
        DomainEvent::WakeUp => Topic::System,
        DomainEvent::ReportSent() => Topic::Telemetry,
    }
}

impl<'a> From<&'a DomainEvent> for Topic {
    fn from(value: &'a DomainEvent) -> (topic: Topic) {
        topic_of(value)
    }
}

impl<'a> FromSpecImpl<&'a DomainEvent> for Topic {
    open spec fn obeys_from_spec() -> bool {
        true
    }

    open spec fn from_spec(value: &'a DomainEvent) -> Topic {
        topic_of_view(value@)
    }
}

/// Classification is a function of what the event says: two events that
/// say the same are routed under the same topic, however often one asks.
pub proof fn law_topic_is_a_function(left: DomainEvent, right: DomainEvent)
    requires
        left@ == right@,
    ensures
        topic_of_view(left@) == topic_of_view(right@),
{
}

} // verus!
