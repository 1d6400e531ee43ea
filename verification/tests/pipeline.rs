use charon_core::event::{DomainEvent, Event, EventView, Mode, Modifiers};
use charon_core::pipeline::{run_chain, Processor, Reaction};
use std::sync::Arc;
use tokio::sync::RwLock;

/// A processor for the tests: it counts what it sees and answers by kind.
enum Link {
    /// Hands every event on unchanged.
    Pass { seen: usize },
    /// Hands on key presses only.
    PressesOnly { seen: usize },
    /// Hands every event on twice.
    Twice { seen: usize },
}

impl Link {
    fn seen(&self) -> usize {
        match self {
            Link::Pass { seen } | Link::PressesOnly { seen } | Link::Twice { seen } => *seen,
        }
    }
}

impl Processor for Link {
    type State = ();

    fn state(&self) {}

    fn reacts(_state: (), _event: EventView, _reaction: Reaction<()>) -> bool {
        unreachable!()
    }

    fn process(&mut self, event: Event) -> Vec<Event> {
        match self {
            Link::Pass { seen } => {
                *seen += 1;
                vec![event]
            }
            Link::PressesOnly { seen } => {
                *seen += 1;
                match event.payload {
                    DomainEvent::KeyPress(..) => vec![event],
                    _ => Vec::new(),
                }
            }
            Link::Twice { seen } => {
                *seen += 1;
                vec![event.clone(), event]
            }
        }
    }
}

fn press(code: u16) -> Event {
    Event::new("kbd".to_string(), DomainEvent::KeyPress(code, Modifiers::none()))
}

fn release(code: u16) -> Event {
    Event::new("kbd".to_string(), DomainEvent::KeyRelease(code, Modifiers::none()))
}

#[test]
fn chain_halts_where_a_processor_yields_nothing() {
    let mut chain = vec![Link::Pass { seen: 0 }, Link::PressesOnly { seen: 0 }, Link::Twice { seen: 0 }];
    let out = run_chain(&mut chain, release(30));
    assert_eq!(out, Vec::<Event>::new());
    assert_eq!(chain[0].seen(), 1);
    assert_eq!(chain[1].seen(), 1);
    assert_eq!(chain[2].seen(), 0);
}

#[test]
fn chain_applies_processors_in_order() {
    let mut chain = vec![Link::Pass { seen: 0 }, Link::PressesOnly { seen: 0 }, Link::Twice { seen: 0 }];
    let out = run_chain(&mut chain, press(30));
    assert_eq!(out, vec![press(30), press(30)]);
    assert_eq!(chain[0].seen(), 1);
    assert_eq!(chain[1].seen(), 1);
    assert_eq!(chain[2].seen(), 1);

    let mut swapped = vec![Link::Twice { seen: 0 }, Link::PressesOnly { seen: 0 }];
    let out = run_chain(&mut swapped, press(7));
    assert_eq!(out, vec![press(7), press(7)]);
    assert_eq!(swapped[0].seen(), 1);
    assert_eq!(swapped[1].seen(), 2);
}

#[test]
fn empty_chain_hands_the_event_back() {
    let mut chain: Vec<Link> = Vec::new();
    let out = run_chain(&mut chain, press(1));
    assert_eq!(out, vec![press(1)]);
}

#[test]
fn several_outputs_each_go_through_the_next_processor() {
    let mut chain = vec![Link::Twice { seen: 0 }, Link::Twice { seen: 0 }, Link::Pass { seen: 0 }];
    let out = run_chain(&mut chain, release(8));
    assert_eq!(out, vec![release(8), release(8), release(8), release(8)]);
    assert_eq!(chain[0].seen(), 1);
    assert_eq!(chain[1].seen(), 2);
    assert_eq!(chain[2].seen(), 4);
}

#[test]
fn halt_at_the_first_processor_leaves_the_rest_untouched() {
    let mut chain = vec![Link::PressesOnly { seen: 0 }, Link::Twice { seen: 0 }, Link::Pass { seen: 0 }];
    assert_eq!(run_chain(&mut chain, release(2)), Vec::<Event>::new());
    assert_eq!(chain[0].seen(), 1);
    assert_eq!(chain[1].seen(), 0);
    assert_eq!(chain[2].seen(), 0);
    assert_eq!(run_chain(&mut chain, press(2)), vec![press(2), press(2)]);
    assert_eq!(chain[0].seen(), 2);
    assert_eq!(chain[1].seen(), 1);
    assert_eq!(chain[2].seen(), 2);
}

/// A processor that goes by the shared mode: it hands events on while the
/// daemon passes input through, and holds them back while an application
/// has the input.
struct Gate {
    mode: Arc<RwLock<Mode>>,
}

impl Processor for Gate {
    type State = ();

    fn state(&self) {}

    fn reacts(_state: (), _event: EventView, _reaction: Reaction<()>) -> bool {
        unreachable!()
    }

    fn process(&mut self, event: Event) -> Vec<Event> {
        match *self.mode.try_read().unwrap() {
            Mode::PassThrough => vec![event],
            Mode::InApp => Vec::new(),
        }
    }
}

#[test]
fn a_processor_may_go_by_the_shared_mode() {
    let mode = Arc::new(RwLock::new(Mode::PassThrough));
    let mut chain = vec![Gate { mode: mode.clone() }, Gate { mode: mode.clone() }];
    assert_eq!(run_chain(&mut chain, press(30)), vec![press(30)]);
    *mode.try_write().unwrap() = Mode::InApp;
    assert_eq!(run_chain(&mut chain, press(30)), Vec::<Event>::new());
    *mode.try_write().unwrap() = Mode::PassThrough;
    assert_eq!(run_chain(&mut chain, release(30)), vec![release(30)]);
}
