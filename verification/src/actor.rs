//! Actors: what each one is given, and how its loop decides.

use vstd::prelude::*;
use std::sync::Arc;
use tokio::sync::mpsc::{Receiver, Sender};
use tokio::sync::RwLock;
use tokio::task::JoinHandle;
use crate::config::CharonConfig;
use crate::event::{event_view, Event, EventView, Mode};
use crate::pipeline::{chain_ran, event_views, run_chain, states_of, Processor, Reaction};
use crate::runtime::share_mode;

verus! {

/// Why an actor could not be started.
#[derive(Debug, PartialEq, Eq)]
pub struct SpawnError {
    pub reason: String,
}

/// All that an actor owns once it runs. The daemon builds it and hands it
/// over on spawn, keeping nothing but the task handle.
pub struct ActorState<P> {
    /// The name under which the actor is registered with the broker.
    pub name: String,
    /// The runtime mode, shared with every other actor.
    pub mode: Arc<RwLock<Mode>>,
    /// Where the actor publishes: the broker's channel.
    pub sender: Sender<Event>,
    /// Where the broker delivers to the actor.
    pub receiver: Receiver<Event>,
    /// The actor's copy of the configuration.
    pub config: CharonConfig,
    /// The actor's processor chain, in order. Empty for most actors.
    pub processors: Vec<P>,
}

impl<P> ActorState<P> {
    /// Bundles what an actor needs.
    pub fn new(
        name: String,
        mode: Arc<RwLock<Mode>>,
        sender: Sender<Event>,
        receiver: Receiver<Event>,
        config: CharonConfig,
        processors: Vec<P>,
    ) -> (state: Self)
        ensures
            state == (ActorState { name, mode, sender, receiver, config, processors }),
    {
        ActorState { name, mode, sender, receiver, config, processors }
    }
}

/// What a processor is built from: a snapshot taken before its actor is
/// spawned. Each processor gets a copy.
pub struct ProcessorState {
    /// The name of the actor that the processor will belong to.
    pub name: String,
    /// The runtime mode, shared with every actor.
    pub mode: Arc<RwLock<Mode>>,
    /// A copy of the configuration.
    pub config: CharonConfig,
}

impl ProcessorState {
    /// A snapshot for the processors of the actor `name`.
    pub fn new(name: String, mode: Arc<RwLock<Mode>>, config: CharonConfig) -> (state: Self)
        ensures
            state == (ProcessorState { name, mode, config }),
    {
        ProcessorState { name, mode, config }
    }

    /// Two snapshots say the same: same name, same lock, same configuration.
    pub open spec fn same_as(&self, other: &ProcessorState) -> bool {
        &&& self.name@ == other.name@
        &&& self.mode == other.mode
        &&& self.config@ == other.config@
    }
}

impl Clone for ProcessorState {
    fn clone(&self) -> (copy: ProcessorState)
        ensures
            copy.same_as(self),
    {
        ProcessorState {
            name: self.name.clone(),
            mode: share_mode(&self.mode),
            config: self.config.clone(),
        }
    }
}

/// A concurrent unit of the daemon. An implementation says what it is
/// called, what it needs besides its state, and how it is started.
pub trait Actor {
    /// What this kind of actor needs to start, besides its state: nothing
    /// for most, the device for a scanner.
    type Init;

    /// The kind of processor that this actor chains.
    type Link: Processor;

    /// The name of this kind of actor: the key for logs and for the broker.
    const NAME: &'static str;

    /// Starts the actor as a task of its own that owns `state`, and returns
    /// the handle to await it by. Fails where the actor cannot get what it
    /// needs, such as its device.
    fn spawn(state: ActorState<Self::Link>, init: Self::Init) -> (started: Result<
        JoinHandle<()>,
        SpawnError,
    >);
}

/// The only processor that an actor without a chain needs to name: it hands
/// every event on as it is.
pub struct Relay;

impl Processor for Relay {
    type State = ();

    open spec fn state(&self) -> () {
        ()
    }

    open spec fn reacts(state: (), event: EventView, reaction: Reaction<()>) -> bool {
        reaction.yields == seq![event]
    }

    fn process(&mut self, event: Event) -> (out: Vec<Event>) {
        let mut out: Vec<Event> = Vec::new();
        out.push(event);
        assert(event_views(out@) =~= seq![event@]);
        out
    }
}

/// What an actor does with what its channel gave.
pub enum Turn {
    /// The loop ends: the channel is closed, or the event was `Exit`.
    Stop,
    /// The actor works on this event.
    Handle(Event),
}

/// Whether what the channel gave ends an actor's loop: the closed channel
/// does, for which `None` stands, and so does `Exit`, whoever raised it.
pub open spec fn ends_loop(inbound: Option<EventView>) -> bool {
    match inbound {
        None => true,
        Some(event) => event.payload is Exit,
    }
}

/// Decides one turn of an actor's loop. `None` stands for the closed
/// channel. `Exit` and the closed channel end the loop; any other event is
/// the actor's to handle.
pub fn next_turn(inbound: Option<Event>) -> (turn: Turn)
    ensures
        ends_loop(event_view(inbound)) <==> turn is Stop,
        turn is Handle ==> inbound == Some(turn->0),
{
    match inbound {
        None => Turn::Stop,
        Some(event) => {
            if event.is_exit() {
                Turn::Stop
            } else {
                Turn::Handle(event)
            }
        },
    }
}

/// One turn of the loop of a pipeline, the actor that is nothing but its
/// chain. `None` ends the loop, as `next_turn` decides. Otherwise the event
/// has gone through the chain, and what is returned is what survives it:
/// the events to publish, in order.
pub fn pipeline_turn<P: Processor>(processors: &mut Vec<P>, inbound: Option<Event>) -> (publish:
    Option<Vec<Event>>)
    ensures
        final(processors).len() == old(processors).len(),
        ends_loop(event_view(inbound)) <==> publish is None,
        publish is None ==> final(processors)@ == old(processors)@,
        publish matches Some(out) ==> chain_ran::<P>(
            states_of(old(processors)@),
            seq![inbound->0@],
            event_views(out@),
            states_of(final(processors)@),
        ),
{
    match next_turn(inbound) {
        Turn::Stop => None,
        Turn::Handle(event) => Some(run_chain(processors, event)),
    }
}

} // verus!
