//! The events that actors exchange, and the runtime mode they share.

use vstd::prelude::*;

verus! {

/// The runtime mode that gates what actors and the client do.
#[derive(Clone, Copy, Debug, PartialEq, Eq, Structural)]
pub enum Mode {
    /// Input is handed on unchanged.
    PassThrough,
    /// Input is consumed by the daemon's own applications.
    InApp,
}

/// The modifier keys held down together with a key, one bit per key.
#[derive(Clone, Copy, Debug, PartialEq, Eq, Structural)]
pub struct Modifiers {
    pub bits: u8,
}

impl Modifiers {
    /// No modifier key is held.
    pub fn none() -> (m: Modifiers)
        ensures
            m.bits == 0,
    {
        Modifiers { bits: 0 }
    }

    /// True when no modifier key is held.
    pub fn is_none(&self) -> (b: bool)
        ensures
            b == (self.bits == 0),
    {
        self.bits == 0
    }
}

/// A snapshot of the typing statistics that the daemon keeps.
#[derive(Clone, Copy, Debug, PartialEq, Eq, Structural)]
pub struct StatsSnapshot {
    pub total: u64,
    pub today: u64,
    pub wpm: u16,
    pub max_wpm: u16,
}

/// What happened: the payload of an [`Event`].
#[derive(Debug, PartialEq, Eq)]
pub enum DomainEvent {
    /// A key went down: its code and the modifiers held.
    KeyPress(u16, Modifiers),
    /// A key went up: its code and the modifiers held.
    KeyRelease(u16, Modifiers),
    /// A HID report to emit, as raw bytes.
    HidReport(Vec<u8>),
    /// Text to type out.
    SendText(String),
    /// A file to type out: its path, and whether to end with a newline.
    SendFile(String, bool),
    /// The text was typed out.
    TextSent,
    /// The current statistics.
    CurrentStats(StatsSnapshot),
    /// The runtime mode changes to the one given.
    ModeChange(Mode),
    /// Every actor stops.
    Exit,
    /// The client screen goes dark.
    Sleep,
    /// The client screen comes back.
    WakeUp,
    /// A HID report was emitted.
    ReportSent(),
}

/// The mathematical value of a [`DomainEvent`].
pub enum DomainEventView {
    KeyPress(u16, Modifiers),
    KeyRelease(u16, Modifiers),
    HidReport(Seq<u8>),
    SendText(Seq<char>),
    SendFile(Seq<char>, bool),
    TextSent,
    CurrentStats(StatsSnapshot),
    ModeChange(Mode),
    Exit,
    Sleep,
    WakeUp,
    ReportSent,
}

impl View for DomainEvent {
    type V = DomainEventView;

    open spec fn view(&self) -> DomainEventView {
        match *self {
            DomainEvent::KeyPress(code, mods) => DomainEventView::KeyPress(code, mods),
            DomainEvent::KeyRelease(code, mods) => DomainEventView::KeyRelease(code, mods),
            DomainEvent::HidReport(bytes) => DomainEventView::HidReport(bytes@),
            DomainEvent::SendText(text) => DomainEventView::SendText(text@),
            DomainEvent::SendFile(path, newline) => DomainEventView::SendFile(path@, newline),
            DomainEvent::TextSent => DomainEventView::TextSent,
            DomainEvent::CurrentStats(stats) => DomainEventView::CurrentStats(stats),
            DomainEvent::ModeChange(mode) => DomainEventView::ModeChange(mode),
            DomainEvent::Exit => DomainEventView::Exit,
            DomainEvent::Sleep => DomainEventView::Sleep,
            DomainEvent::WakeUp => DomainEventView::WakeUp,
            DomainEvent::ReportSent() => DomainEventView::ReportSent,
        }
    }
}

impl Clone for DomainEvent {
    fn clone(&self) -> (copy: DomainEvent)
        ensures
            copy@ == self@,
    {
        match self {
            DomainEvent::KeyPress(code, mods) => DomainEvent::KeyPress(*code, *mods),
            DomainEvent::KeyRelease(code, mods) => DomainEvent::KeyRelease(*code, *mods),
            DomainEvent::HidReport(bytes) => DomainEvent::HidReport(bytes.clone()),
            DomainEvent::SendText(text) => DomainEvent::SendText(text.clone()),
            DomainEvent::SendFile(path, newline) => DomainEvent::SendFile(path.clone(), *newline),
            DomainEvent::TextSent => DomainEvent::TextSent,
            DomainEvent::CurrentStats(stats) => DomainEvent::CurrentStats(*stats),
            DomainEvent::ModeChange(mode) => DomainEvent::ModeChange(*mode),
            DomainEvent::Exit => DomainEvent::Exit,
            DomainEvent::Sleep => DomainEvent::Sleep,
            DomainEvent::WakeUp => DomainEvent::WakeUp,
            DomainEvent::ReportSent() => DomainEvent::ReportSent(),
        }
    }
}

/// An event on its way through the broker: who raised it, and what happened.
#[derive(Debug, PartialEq, Eq)]
pub struct Event {
    pub source: String,
    pub payload: DomainEvent,
}

/// The mathematical value of an [`Event`].
pub struct EventView {
    pub source: Seq<char>,
    pub payload: DomainEventView,
}

impl View for Event {
    type V = EventView;

    open spec fn view(&self) -> EventView {
        EventView { source: self.source@, payload: self.payload@ }
    }
}

impl Clone for Event {
    fn clone(&self) -> (copy: Event)
        ensures
            copy@ == self@,
    {
        Event { source: self.source.clone(), payload: self.payload.clone() }
    }
}

/// The mathematical value of an event that may be missing.
pub open spec fn event_view(event: Option<Event>) -> Option<EventView> {
    match event {
        Some(event) => Some(event@),
        None => None,
    }
}

impl Event {
    /// An event raised by `source`.
    pub fn new(source: String, payload: DomainEvent) -> (event: Event)
        ensures
            event.source == source,
            event.payload == payload,
    {
        Event { source, payload }
    }

    /// True for the event that tells every actor to stop.
    pub fn is_exit(&self) -> (b: bool)
        ensures
            b == (self@.payload is Exit),
    {
        match self.payload {
            DomainEvent::Exit => true,
            _ => false,
        }
    }
}

/// The mode after one event: a change of mode sets it, and nothing else
/// touches it.
pub open spec fn mode_after(mode: Mode, event: DomainEventView) -> Mode {
    match event {
        DomainEventView::ModeChange(changed) => changed,
        _ => mode,
    }
}

/// The mode after a run of events, taken in order.
pub open spec fn mode_after_all(mode: Mode, events: Seq<DomainEventView>) -> Mode
    decreases events.len(),
{
    if events.len() == 0 {
        mode
    } else {
        mode_after(mode_after_all(mode, events.drop_last()), events.last())
    }
}

/// The mode that an event asks to be written, if it asks for one: only a
/// change of mode does.
pub fn mode_change(event: &DomainEvent) -> (change: Option<Mode>)
    ensures
        change == match event@ {
            DomainEventView::ModeChange(changed) => Some(changed),
            _ => None::<Mode>,
        },
{
    match event {
        DomainEvent::ModeChange(changed) => Some(*changed),
        _ => None,
    }
}

/// The mode to hold once `event` has been processed.
pub fn next_mode(mode: Mode, event: &DomainEvent) -> (next: Mode)
    ensures
        next == mode_after(mode, event@),
{
    match mode_change(event) {
        Some(changed) => changed,
        None => mode,
    }
}

/// Events other than a change of mode leave the mode as it is.
pub proof fn law_mode_is_written_by_mode_changes_only(mode: Mode, events: Seq<DomainEventView>)
    requires
        forall|k: int| 0 <= k < events.len() ==> !(#[trigger] events[k] is ModeChange),
    ensures
        mode_after_all(mode, events) == mode,
    decreases events.len(),
{
    if events.len() > 0 {
        let earlier = events.drop_last();
        assert forall|k: int| 0 <= k < earlier.len() implies !(#[trigger] earlier[k]
            is ModeChange) by {
            assert(earlier[k] == events[k]);
        }
        law_mode_is_written_by_mode_changes_only(mode, earlier);
        assert(!(events[events.len() - 1] is ModeChange));
    }
}

/// Once a change of mode has been processed, the mode is the new one, and
/// stays so through every event that is no change of mode: whatever came
/// before, and whatever the mode was.
pub proof fn law_mode_change_is_seen(
    mode: Mode,
    earlier: Seq<DomainEventView>,
    changed: Mode,
    later: Seq<DomainEventView>,
)
    requires
        forall|k: int| 0 <= k < later.len() ==> !(#[trigger] later[k] is ModeChange),
    ensures
        mode_after_all(mode, earlier.push(DomainEventView::ModeChange(changed)) + later)
            == changed,
    decreases later.len(),
{
    let upto = earlier.push(DomainEventView::ModeChange(changed));
    if later.len() == 0 {
        assert(upto + later =~= upto);
        assert(upto.last() == DomainEventView::ModeChange(changed));
    } else {
        let shorter = later.drop_last();
        assert forall|k: int| 0 <= k < shorter.len() implies !(#[trigger] shorter[k]
            is ModeChange) by {
            assert(shorter[k] == later[k]);
        }
        law_mode_change_is_seen(mode, earlier, changed, shorter);
        assert((upto + later).drop_last() =~= upto + shorter);
        assert((upto + later).last() == later[later.len() - 1]);
        assert(!(later[later.len() - 1] is ModeChange));
    }
}

} // verus!
