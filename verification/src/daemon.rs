//! The daemon: the builder that registers actors, starts them and keeps
//! their task handles until shutdown.

use vstd::prelude::*;
use vstd::string::StringExecFns;
use std::sync::Arc;
use tokio::sync::mpsc::{Receiver, Sender};
use tokio::sync::RwLock;
use tokio::task::JoinHandle;
use crate::actor::{ends_loop, Actor, ActorState, ProcessorState, SpawnError};
use crate::broker::{delivers, is_routing, wants, Delivery, EventBroker, Subscriber};
use crate::config::{keyboard_config, CharonConfig, ConfigView};
use crate::event::{DomainEvent, DomainEventView, Event, EventView, Mode};
use crate::runtime::{clone_sender, event_channel, mode_lock, share_mode};
use crate::topic::Topic;

verus! {

/// The number of events that each channel of the daemon holds before a
/// sender has to wait.
pub const CHANNEL_CAPACITY: usize = 128;

/// An actor that could not be started. The daemon goes on without it.
pub struct SpawnFailure {
    /// The name under which the actor was registered.
    pub actor: String,
    /// Why it did not start.
    pub error: SpawnError,
}

/// What one turn of the daemon's loop asks the caller to send.
pub enum RunStep<'a> {
    /// An event was published: these copies go out, and the loop goes on.
    Forward(Vec<Delivery<'a>>),
    /// The broker's channel is closed. The loop is over, and these copies
    /// of `Exit` go out to every subscriber.
    Stopped(Vec<Delivery<'a>>),
}

/// The orchestrator. Actors are registered before any event flows; each
/// gets a channel of its own, a subscription with the broker and a task.
pub struct Daemon {
    tasks: Vec<JoinHandle<()>>,
    failures: Vec<SpawnFailure>,
    broker: EventBroker,
    event_tx: Sender<Event>,
    mode: Arc<RwLock<Mode>>,
    config: CharonConfig,
}

/// The event by which the daemon tells every actor to stop.
pub open spec fn exit_event() -> EventView {
    EventView { source: "broker"@, payload: DomainEventView::Exit }
}

/// The name under which the scanner of a device is registered.
pub open spec fn scanner_name(device: Seq<char>) -> Seq<char> {
    "KeyScanner-"@ + device
}

/// The names under which the scanners of these devices are registered.
pub open spec fn scanner_names(devices: Seq<Seq<char>>) -> Seq<Seq<char>> {
    devices.map_values(|device: Seq<char>| scanner_name(device))
}

/// `after` is `before` with actors of these names registered behind those
/// already there, each under `topics`. Every one of them has a subscription,
/// whether or not it started. Each either started, which added a task, or
/// failed, which added a failure under its name. Nothing else changed.
pub open spec fn grown(
    before: Daemon,
    after: Daemon,
    names: Seq<Seq<char>>,
    topics: Seq<Topic>,
) -> bool {
    let known = before.subscribers().len() as int;
    &&& after.subscribers().len() == known + names.len()
    &&& after.subscribers().subrange(0, known) == before.subscribers()
    &&& forall|j: int|
        known <= j < known + names.len() ==> (#[trigger] after.subscribers()[j]).name@
            == names[j - known] && after.subscribers()[j].topics@ == topics
    &&& before.tasks().is_prefix_of(after.tasks())
    &&& before.failures().is_prefix_of(after.failures())
    &&& after.tasks().len() + after.failures().len() == before.tasks().len()
        + before.failures().len() + names.len()
    &&& forall|j: int|
        before.failures().len() <= j < after.failures().len() ==> names.contains(
            (#[trigger] after.failures()[j]).actor@,
        )
    &&& after.config() == before.config()
    &&& after.mode() == before.mode()
    &&& after.sender() == before.sender()
    &&& after.receiver() == before.receiver()
}

/// The state carries what an actor of this name is to own: the name, the
/// daemon's mode lock, the daemon's sending end of the broker's channel, the
/// configuration and the processors, these in their order.
pub open spec fn carries<P>(
    state: ActorState<P>,
    name: Seq<char>,
    mode: Arc<RwLock<Mode>>,
    sender: Sender<Event>,
    config: ConfigView,
    processors: Seq<P>,
) -> bool {
    &&& state.name@ == name
    &&& state.mode == mode
    &&& state.sender == sender
    &&& state.config@ == config
    &&& state.processors@ == processors
}

/// An actor of kind `T` was started under `name`: its `spawn` was called
/// with `init` and with a state that carries the name, the mode lock, the
/// sending end, the configuration and the processors given here.
pub open spec fn started_with<T: Actor>(
    name: Seq<char>,
    init: T::Init,
    mode: Arc<RwLock<Mode>>,
    sender: Sender<Event>,
    config: ConfigView,
    processors: Seq<T::Link>,
) -> bool {
    exists|state: ActorState<T::Link>, started: Result<JoinHandle<()>, SpawnError>|
        #[trigger] call_ensures(T::spawn, (state, init), started) && carries(
            state,
            name,
            mode,
            sender,
            config,
            processors,
        )
}

/// `after` is `before` with what a spawn gave kept: the handle behind the
/// tasks if the actor started, the failure under the actor's name behind
/// the failures if it did not.
pub open spec fn outcome_kept(
    before: Daemon,
    after: Daemon,
    name: Seq<char>,
    started: Result<JoinHandle<()>, SpawnError>,
) -> bool {
    match started {
        Ok(task) => {
            &&& after.tasks() == before.tasks().push(task)
            &&& after.failures() == before.failures()
        },
        Err(error) => {
            &&& after.tasks() == before.tasks()
            &&& after.failures().len() == before.failures().len() + 1
            &&& after.failures().drop_last() == before.failures()
            &&& after.failures().last().actor@ == name
            &&& after.failures().last().error == error
        },
    }
}

/// Between `before` and `after` an actor of kind `T` was started under
/// `name`, as `started_with` says, with the mode lock and the sending end
/// of `before`, and what its `spawn` returned was kept, as `outcome_kept`
/// says.
pub open spec fn started_and_kept<T: Actor>(
    before: Daemon,
    after: Daemon,
    name: Seq<char>,
    init: T::Init,
    config: ConfigView,
    processors: Seq<T::Link>,
) -> bool {
    exists|state: ActorState<T::Link>, started: Result<JoinHandle<()>, SpawnError>|
        #[trigger] call_ensures(T::spawn, (state, init), started) && carries(
            state,
            name,
            before.mode(),
            before.sender(),
            config,
            processors,
        ) && outcome_kept(before, after, name, started)
}

/// The scanner of a device was started: under the scanner's name, with the
/// device's identifier to start from, with the configuration of that
/// device, and without processors.
pub open spec fn scanner_started<S: Actor<Init = String>>(
    device: Seq<char>,
    mode: Arc<RwLock<Mode>>,
    sender: Sender<Event>,
) -> bool {
    exists|init: String|
        init@ == device && #[trigger] started_with::<S>(
            scanner_name(device),
            init,
            mode,
            sender,
            keyboard_config(device),
            Seq::empty(),
        )
}

/// `chain` is what the factories built from `snapshot`: as many processors
/// as there are factories, the one at each position built by the factory at
/// that position.
pub open spec fn chain_built<P, F: Fn(ProcessorState) -> P>(
    factories: Seq<F>,
    snapshot: ProcessorState,
    chain: Seq<P>,
) -> bool {
    &&& chain.len() == factories.len()
    &&& forall|i: int|
        0 <= i < chain.len() ==> built_by(factories[i], snapshot, #[trigger] chain[i])
}

/// An actor of kind `T` was started under `name` with a chain that the
/// factories built, in their order, from one snapshot: the name, the mode
/// lock and the configuration of `before`.
pub open spec fn started_with_chain<T: Actor<Init = ()>, F: Fn(ProcessorState) -> T::Link>(
    before: Daemon,
    after: Daemon,
    name: Seq<char>,
    factories: Seq<F>,
) -> bool {
    exists|snapshot: ProcessorState, chain: Seq<T::Link>|
        #[trigger] chain_built(factories, snapshot, chain) && snapshot.name@ == name
            && snapshot.mode == before.mode() && snapshot.config@ == before.config()
            && started_and_kept::<T>(before, after, name, (), before.config(), chain)
}

impl Daemon {
    /// The handles of the actors that started, in the order of registration.
    pub closed spec fn tasks(&self) -> Seq<JoinHandle<()>> {
        self.tasks@
    }

    /// The actors that did not start, in the order of registration.
    pub closed spec fn failures(&self) -> Seq<SpawnFailure> {
        self.failures@
    }

    /// The broker's subscribers, in the order of registration.
    pub closed spec fn subscribers(&self) -> Seq<Subscriber> {
        self.broker.subscribers()
    }

    /// The configuration that the next actor will get a copy of.
    pub closed spec fn config(&self) -> ConfigView {
        self.config@
    }

    /// The lock that holds the runtime mode.
    pub closed spec fn mode(&self) -> Arc<RwLock<Mode>> {
        self.mode
    }

    /// The sending end of the broker's channel.
    pub closed spec fn sender(&self) -> Sender<Event> {
        self.event_tx
    }

    /// The receiving end of the broker's channel.
    pub closed spec fn receiver(&self) -> Receiver<Event> {
        self.broker.receiver()
    }

    /// A daemon with no actor yet, the default configuration, and the mode
    /// lock made with `PassThrough` in it.
    pub fn new() -> (daemon: Self)
        ensures
            daemon.tasks().len() == 0,
            daemon.failures().len() == 0,
            daemon.subscribers().len() == 0,
            daemon.config().keyboards.len() == 0,
    {
        let (event_tx, broker_rx) = event_channel(CHANNEL_CAPACITY);
        Daemon {
            tasks: Vec::new(),
            failures: Vec::new(),
            broker: EventBroker::new(broker_rx),
            event_tx,
            mode: Arc::new(mode_lock(Mode::PassThrough)),
            config: CharonConfig::default(),
        }
    }

    /// The number of actors that started and have not been handed out.
    pub fn task_count(&self) -> (count: usize)
        ensures
            count == self.tasks().len(),
    {
        self.tasks.len()
    }

    /// The actors that did not start, for the caller to report.
    pub fn spawn_failures(&self) -> (failures: &Vec<SpawnFailure>)
        ensures
            failures@ == self.failures(),
    {
        &self.failures
    }

    /// The broker, to look up subscribers.
    pub fn broker(&self) -> (broker: &EventBroker)
        ensures
            broker.subscribers() == self.subscribers(),
            broker.receiver() == self.receiver(),
    {
        &self.broker
    }

    /// The configuration that the next actor will get a copy of.
    pub fn configuration(&self) -> (config: &CharonConfig)
        ensures
            config@ == self.config(),
    {
        &self.config
    }

    /// Another handle to the lock that holds the runtime mode.
    pub fn shared_mode(&self) -> (mode: Arc<RwLock<Mode>>)
        ensures
            mode == self.mode(),
    {
        share_mode(&self.mode)
    }

    /// Another sending end of the broker's channel, to publish on: the
    /// same end that the daemon holds and that every actor is given.
    pub fn publisher(&self) -> (sender: Sender<Event>)
        ensures
            sender == self.sender(),
    {
        clone_sender(&self.event_tx)
    }

    /// The channel to await the next published event on.
    pub fn inbound(&mut self) -> (receiver: &mut Receiver<Event>)
        ensures
            *receiver == old(self).receiver(),
            final(self).receiver() == *final(receiver),
            final(self).tasks() == old(self).tasks(),
            final(self).failures() == old(self).failures(),
            final(self).subscribers() == old(self).subscribers(),
            final(self).config() == old(self).config(),
            final(self).mode() == old(self).mode(),
            final(self).sender() == old(self).sender(),
    {
        self.broker.inbound()
    }

    /// One turn of the daemon's loop on what the broker's channel gave. An
    /// event is routed by its topic. `None`, the closed channel, ends the
    /// loop, and the daemon tells every actor to stop.
    pub fn run(&self, inbound: Option<Event>) -> (step: RunStep<'_>)
        ensures
            match inbound {
                Some(event) => step matches RunStep::Forward(deliveries) && delivers(
                    self.subscribers(),
                    event@,
                    false,
                    deliveries@,
                ),
                None => step matches RunStep::Stopped(deliveries) && delivers(
                    self.subscribers(),
                    exit_event(),
                    true,
                    deliveries@,
                ),
            },
    {
        match inbound {
            Some(event) => RunStep::Forward(self.broker.broadcast(&event, false)),
            None => RunStep::Stopped(self.stop()),
        }
    }

    /// Tells every actor to stop: one copy of `Exit`, raised by the broker,
    /// for each subscriber whatever its topics.
    pub fn stop(&self) -> (deliveries: Vec<Delivery<'_>>)
        ensures
            delivers(self.subscribers(), exit_event(), true, deliveries@),
    {
        let event = Event::new(String::from_str("broker"), DomainEvent::Exit);
        self.broker.broadcast(&event, true)
    }

    /// Hands out the task handles for the caller to await, in the order of
    /// registration, and keeps none.
    pub fn shutdown(&mut self) -> (handles: Vec<JoinHandle<()>>)
        ensures
            handles@ == old(self).tasks(),
            final(self).tasks().len() == 0,
            final(self).failures() == old(self).failures(),
            final(self).subscribers() == old(self).subscribers(),
            final(self).config() == old(self).config(),
            final(self).mode() == old(self).mode(),
            final(self).sender() == old(self).sender(),
            final(self).receiver() == old(self).receiver(),
    {
        let mut handles: Vec<JoinHandle<()>> = Vec::new();
        std::mem::swap(&mut self.tasks, &mut handles);
        handles
    }

    /// Keeps what a spawn gave: the handle of an actor that started, or the
    /// failure of one that did not, under the name it was registered with.
    pub fn record_spawn(&mut self, name: String, started: Result<JoinHandle<()>, SpawnError>)
        ensures
            match started {
                Ok(task) => {
                    &&& final(self).tasks() == old(self).tasks().push(task)
                    &&& final(self).failures() == old(self).failures()
                },
                Err(error) => {
                    &&& final(self).tasks() == old(self).tasks()
                    &&& final(self).failures() == old(self).failures().push(
                        (SpawnFailure { actor: name, error }),
                    )
                },
            },
            final(self).subscribers() == old(self).subscribers(),
            final(self).config() == old(self).config(),
            final(self).mode() == old(self).mode(),
            final(self).sender() == old(self).sender(),
            final(self).receiver() == old(self).receiver(),
    {
        match started {
            Ok(task) => self.tasks.push(task),
            Err(error) => self.failures.push(SpawnFailure { actor: name, error }),
        }
    }

    /// Gives a new actor its place, before it is spawned: a channel of its
    /// own, a subscription under `topics` behind those already there, and
    /// the state that it will own. The state carries the name, the shared
    /// mode lock, a sending end of the broker's channel, the receiving end
    /// of the new channel, and the configuration and the processors given.
    pub fn enroll<P>(
        &mut self,
        name: String,
        topics: &'static [Topic],
        config: CharonConfig,
        processors: Vec<P>,
    ) -> (state: ActorState<P>)
        ensures
            final(self).subscribers().len() == old(self).subscribers().len() + 1,
            final(self).subscribers().drop_last() == old(self).subscribers(),
            final(self).subscribers().last().name@ == name@,
            final(self).subscribers().last().topics@ == topics@,
            state.name@ == name@,
            state.mode == old(self).mode(),
            state.sender == old(self).sender(),
            state.config == config,
            state.processors == processors,
            final(self).tasks() == old(self).tasks(),
            final(self).failures() == old(self).failures(),
            final(self).config() == old(self).config(),
            final(self).mode() == old(self).mode(),
            final(self).sender() == old(self).sender(),
            final(self).receiver() == old(self).receiver(),
    {
        let (actor_tx, actor_rx) = event_channel(CHANNEL_CAPACITY);
        self.broker.add_subscriber(actor_tx, name.clone(), topics);
        assert(self.subscribers().drop_last() =~= old(self).subscribers());
        ActorState::new(
            name,
            share_mode(&self.mode),
            clone_sender(&self.event_tx),
            actor_rx,
            config,
            processors,
        )
    }

    /// Registers one actor: its place with the broker, as `enroll` gives
    /// it, and the spawn with the state from there. An actor that fails to
    /// start keeps its subscription and leaves the others untouched.
    fn register_actor<T: Actor>(
        &mut self,
        name: String,
        init: T::Init,
        topics: &'static [Topic],
        config: CharonConfig,
        processors: Vec<T::Link>,
    )
        ensures
            grown(*old(self), *final(self), seq![name@], topics@),
            started_and_kept::<T>(*old(self), *final(self), name@, init, config@, processors@),
    {
        let state = self.enroll(name.clone(), topics, config, processors);
        let ghost handed = state;
        let started = T::spawn(state, init);
        self.record_spawn(name, started);
        proof {
            let known = old(self).subscribers().len() as int;
            assert(self.subscribers().subrange(0, known) =~= self.subscribers().drop_last());
            assert(seq![name@].contains(name@)) by {
                assert(seq![name@][0] == name@);
            }
            if started is Err {
                assert(self.failures().drop_last() =~= old(self).failures());
            }
            assert(call_ensures(T::spawn, (handed, init), started) && carries(
                handed,
                name@,
                old(self).mode(),
                old(self).sender(),
                config@,
                processors@,
            ) && outcome_kept(*old(self), *self, name@, started));
        }
    }

    /// Registers an actor that needs nothing to start, under the name of
    /// its kind and with a copy of the configuration.
    pub fn add_actor<T: Actor<Init = ()>>(&mut self, topics: &'static [Topic]) -> (daemon:
        &mut Self)
        ensures
            grown(*old(self), *daemon, seq![T::NAME@], topics@),
            started_and_kept::<T>(
                *old(self),
                *daemon,
                T::NAME@,
                (),
                old(self).config(),
                Seq::empty(),
            ),
            *final(self) == *final(daemon),
    {
        let config = self.config.clone();
        self.register_actor::<T>(String::from_str(T::NAME), (), topics, config, Vec::new());
        self
    }

    /// Registers the actor as `add_actor` does if `should_add` holds, and
    /// does nothing otherwise.
    pub fn add_actor_conditionally<T: Actor<Init = ()>>(
        &mut self,
        should_add: bool,
        topics: &'static [Topic],
    ) -> (daemon: &mut Self)
        ensures
            should_add ==> grown(*old(self), *daemon, seq![T::NAME@], topics@),
            should_add ==> started_and_kept::<T>(
                *old(self),
                *daemon,
                T::NAME@,
                (),
                old(self).config(),
                Seq::empty(),
            ),
            !should_add ==> *daemon == *old(self),
            *final(self) == *final(daemon),
    {
        if should_add {
            let config = self.config.clone();
            self.register_actor::<T>(String::from_str(T::NAME), (), topics, config, Vec::new());
        }
        self
    }

    /// Registers one scanner per configured device, in the configured
    /// order. The scanner of a device is called `KeyScanner-` and the
    /// device's identifier, is started with that identifier, and gets the
    /// configuration of that device.
    pub fn add_scanners<S: Actor<Init = String>>(&mut self, topics: &'static [Topic]) -> (daemon:
        &mut Self)
        ensures
            grown(*old(self), *daemon, scanner_names(old(self).config().keyboards), topics@),
            forall|k: int|
                0 <= k < old(self).config().keyboards.len() ==> scanner_started::<S>(
                    #[trigger] old(self).config().keyboards[k],
                    old(self).mode(),
                    old(self).sender(),
                ),
            *final(self) == *final(daemon),
    {
        let entries = self.config.get_config_per_keyboard();
        let ghost devices = self.config().keyboards;
        let mut i: usize = 0;
        let total = entries.len();
        proof {
            lemma_grown_nothing(*self, topics@);
            assert(scanner_names(devices).take(0) =~= Seq::<Seq<char>>::empty());
        }
        while i < total
            invariant
                i <= total,
                total == devices.len(),
                entries.len() == total,
                devices == old(self).config().keyboards,
                forall|k: int|
                    0 <= k < total ==> (#[trigger] entries[k]).0@ == devices[k] && entries[k].1@
                        == keyboard_config(devices[k]),
                grown(*old(self), *self, scanner_names(devices).take(i as int), topics@),
                forall|k: int|
                    0 <= k < i ==> scanner_started::<S>(
                        #[trigger] devices[k],
                        old(self).mode(),
                        old(self).sender(),
                    ),
            decreases total - i,
        {
            let device = entries[i].0.clone();
            let config = entries[i].1.clone();
            let mut name = String::from_str("KeyScanner-");
            name.append(device.as_str());
            let ghost before = *self;
            self.register_actor::<S>(name, device, topics, config, Vec::new());
            proof {
                let sofar = scanner_names(devices).take(i as int);
                assert(name@ == scanner_name(devices[i as int]));
                assert(scanner_names(devices).take(i as int + 1) =~= sofar + seq![name@]);
                lemma_grown_twice(*old(self), before, *self, sofar, seq![name@], topics@);
                assert(device@ == devices[i as int] && started_with::<S>(
                    scanner_name(devices[i as int]),
                    device,
                    old(self).mode(),
                    old(self).sender(),
                    keyboard_config(devices[i as int]),
                    Seq::empty(),
                ));
            }
            i += 1;
        }
        proof {
            assert(scanner_names(devices).take(i as int) =~= scanner_names(devices));
        }
        self
    }

    /// Registers an actor that is started with `init`, under the name of
    /// its kind and with a copy of the configuration.
    pub fn add_actor_with_init<T: Actor>(
        &mut self,
        init: T::Init,
        topics: &'static [Topic],
    ) -> (daemon: &mut Self)
        ensures
            grown(*old(self), *daemon, seq![T::NAME@], topics@),
            started_and_kept::<T>(
                *old(self),
                *daemon,
                T::NAME@,
                init,
                old(self).config(),
                Seq::empty(),
            ),
            *final(self) == *final(daemon),
    {
        let config = self.config.clone();
        self.register_actor::<T>(String::from_str(T::NAME), init, topics, config, Vec::new());
        self
    }

    /// Registers an actor with a processor chain. The processors are built
    /// here, before the spawn, by calling each factory once, in order, with
    /// a copy of one snapshot: the actor's name, the mode lock and the
    /// configuration. The chain is handed to the actor in that order.
    pub fn add_actor_with_processors<T: Actor<Init = ()>, F: Fn(ProcessorState) -> T::Link>(
        &mut self,
        topics: &'static [Topic],
        factories: &[F],
    ) -> (daemon: &mut Self)
        requires
            take_snapshots(factories@, T::NAME@, old(self).mode(), old(self).config()),
        ensures
            grown(*old(self), *daemon, seq![T::NAME@], topics@),
            started_with_chain::<T, F>(*old(self), *daemon, T::NAME@, factories@),
            *final(self) == *final(daemon),
    {
        let snapshot = ProcessorState::new(
            String::from_str(T::NAME),
            share_mode(&self.mode),
            self.config.clone(),
        );
        let processors = build_processors(&snapshot, factories);
        let ghost chain = processors@;
        let config = self.config.clone();
        self.register_actor::<T>(String::from_str(T::NAME), (), topics, config, processors);
        proof {
            assert(chain_built(factories@, snapshot, chain) && snapshot.name@ == T::NAME@
                && snapshot.mode == old(self).mode() && snapshot.config@ == old(self).config()
                && started_and_kept::<T>(
                *old(self),
                *self,
                T::NAME@,
                (),
                old(self).config(),
                chain,
            ));
        }
        self
    }

    /// Registers a pipeline, an actor that is nothing but its chain, under
    /// a name of the caller's choice. The processors are built as in
    /// `add_actor_with_processors`, from a snapshot that carries that name.
    pub fn add_pipeline<P: Actor<Init = ()>, F: Fn(ProcessorState) -> P::Link>(
        &mut self,
        name: &'static str,
        topics: &'static [Topic],
        factories: &[F],
    ) -> (daemon: &mut Self)
        requires
            take_snapshots(factories@, name@, old(self).mode(), old(self).config()),
        ensures
            grown(*old(self), *daemon, seq![name@], topics@),
            started_with_chain::<P, F>(*old(self), *daemon, name@, factories@),
            *final(self) == *final(daemon),
    {
        let snapshot = ProcessorState::new(
            String::from_str(name),
            share_mode(&self.mode),
            self.config.clone(),
        );
        let processors = build_processors(&snapshot, factories);
        let ghost chain = processors@;
        let config = self.config.clone();
        self.register_actor::<P>(String::from_str(name), (), topics, config, processors);
        proof {
            assert(chain_built(factories@, snapshot, chain) && snapshot.name@ == name@
                && snapshot.mode == old(self).mode() && snapshot.config@ == old(self).config()
                && started_and_kept::<P>(
                *old(self),
                *self,
                name@,
                (),
                old(self).config(),
                chain,
            ));
        }
        self
    }

    /// Sets the configuration to what `transform` makes of it.
    pub fn update_config<F: FnOnce(CharonConfig) -> CharonConfig>(
        &mut self,
        transform: F,
    ) -> (daemon: &mut Self)
        requires
            forall|config: CharonConfig|
                config@ == old(self).config() ==> call_requires(transform, (config,)),
        ensures
            exists|before: CharonConfig, after: CharonConfig|
                before@ == old(self).config() && after@ == daemon.config() && call_ensures(
                    transform,
                    (before,),
                    after,
                ),
            daemon.tasks() == old(self).tasks(),
            daemon.failures() == old(self).failures(),
            daemon.subscribers() == old(self).subscribers(),
            daemon.mode() == old(self).mode(),
            daemon.sender() == old(self).sender(),
            daemon.receiver() == old(self).receiver(),
            *final(self) == *final(daemon),
    {
        let mut config = CharonConfig::default();
        std::mem::swap(&mut self.config, &mut config);
        let ghost before = config;
        self.config = transform(config);
        proof {
            assert(before@ == old(self).config() && self.config@ == self.config()
                && call_ensures(transform, (before,), self.config));
        }
        self
    }

    /// Sets the configuration.
    pub fn with_config(&mut self, config: CharonConfig) -> (daemon: &mut Self)
        ensures
            daemon.config() == config@,
            daemon.tasks() == old(self).tasks(),
            daemon.failures() == old(self).failures(),
            daemon.subscribers() == old(self).subscribers(),
            daemon.mode() == old(self).mode(),
            daemon.sender() == old(self).sender(),
            daemon.receiver() == old(self).receiver(),
            *final(self) == *final(daemon),
    {
        self.config = config;
        self
    }
}

/// Every factory can be called with every snapshot that carries this name,
/// this lock and this configuration.
pub open spec fn take_snapshots<P, F: Fn(ProcessorState) -> P>(
    factories: Seq<F>,
    name: Seq<char>,
    mode: Arc<RwLock<Mode>>,
    config: ConfigView,
) -> bool {
    forall|i: int, given: ProcessorState|
        0 <= i < factories.len() && given.name@ == name && given.mode == mode && given.config@
            == config ==> #[trigger] call_requires(factories[i], (given,))
}

/// `processor` is what `factory` returned for a copy of `snapshot`.
pub open spec fn built_by<P, F: Fn(ProcessorState) -> P>(
    factory: F,
    snapshot: ProcessorState,
    processor: P,
) -> bool {
    exists|given: ProcessorState|
        given.same_as(&snapshot) && #[trigger] call_ensures(factory, (given,), processor)
}

/// Builds the processors of a chain: each factory is called once, in the
/// order of the list, with a copy of `snapshot`, and what it returns stands
/// at its position in the chain.
pub fn build_processors<P, F: Fn(ProcessorState) -> P>(
    snapshot: &ProcessorState,
    factories: &[F],
) -> (processors: Vec<P>)
    requires
        take_snapshots(factories@, snapshot.name@, snapshot.mode, snapshot.config@),
    ensures
        processors.len() == factories@.len(),
        forall|i: int|
            0 <= i < processors.len() ==> built_by(
                factories@[i],
                *snapshot,
                #[trigger] processors[i],
            ),
{
    let mut processors: Vec<P> = Vec::new();
    let mut i: usize = 0;
    while i < factories.len()
        invariant
            i <= factories@.len(),
            processors.len() == i,
            take_snapshots(factories@, snapshot.name@, snapshot.mode, snapshot.config@),
            forall|k: int|
                0 <= k < i ==> built_by(factories@[k], *snapshot, #[trigger] processors[k]),
        decreases factories@.len() - i,
    {
        let given = snapshot.clone();
        let built = factories[i](given);
        assert(built_by(factories@[i as int], *snapshot, built)) by {
            assert(given.same_as(snapshot) && call_ensures(factories@[i as int], (given,), built));
        }
        processors.push(built);
        i += 1;
    }
    processors
}

/// What `stop` sends reaches every actor and ends its loop: each
/// subscriber is among the targets, and the event is one on which an
/// actor's loop ends.
pub proof fn law_stop_ends_every_loop(
    subscribers: Seq<Subscriber>,
    targets: Seq<int>,
    position: int,
)
    requires
        is_routing(subscribers, exit_event(), true, targets),
        0 <= position < subscribers.len(),
    ensures
        targets.contains(position),
        ends_loop(Some(exit_event())),
{
    assert(wants(subscribers[position].topics@, exit_event(), true));
}

/// Scanners of different devices are registered under different names.
pub proof fn law_scanner_names_differ(left: Seq<char>, right: Seq<char>)
    requires
        left != right,
    ensures
        scanner_name(left) != scanner_name(right),
{
    let prefix = "KeyScanner-"@;
    if scanner_name(left) == scanner_name(right) {
        assert((prefix + left).skip(prefix.len() as int) =~= left);
        assert((prefix + right).skip(prefix.len() as int) =~= right);
    }
}

/// Registering no actor changes nothing.
proof fn lemma_grown_nothing(daemon: Daemon, topics: Seq<Topic>)
    ensures
        grown(daemon, daemon, Seq::empty(), topics),
{
    assert(daemon.subscribers().subrange(0, daemon.subscribers().len() as int)
        =~= daemon.subscribers());
}

/// Registering some actors and then some more is registering all of them.
proof fn lemma_grown_twice(
    first: Daemon,
    second: Daemon,
    third: Daemon,
    earlier: Seq<Seq<char>>,
    later: Seq<Seq<char>>,
    topics: Seq<Topic>,
)
    requires
        grown(first, second, earlier, topics),
        grown(second, third, later, topics),
    ensures
        grown(first, third, earlier + later, topics),
{
    let names = earlier + later;
    let known = first.subscribers().len() as int;
    let middle = second.subscribers().len() as int;
    assert(third.subscribers().subrange(0, known) =~= first.subscribers()) by {
        assert(third.subscribers().subrange(0, middle) == second.subscribers());
        assert(second.subscribers().subrange(0, known) == first.subscribers());
        assert forall|k: int| 0 <= k < known implies third.subscribers()[k]
            == first.subscribers()[k] by {
            assert(third.subscribers().subrange(0, middle)[k] == third.subscribers()[k]);
            assert(second.subscribers().subrange(0, known)[k] == second.subscribers()[k]);
        }
    }
    assert forall|j: int| known <= j < known + names.len() implies {
        &&& (#[trigger] third.subscribers()[j]).name@ == names[j - known]
        &&& third.subscribers()[j].topics@ == topics
    } by {
        if j < middle {
            assert(third.subscribers().subrange(0, middle)[j] == third.subscribers()[j]);
            assert(second.subscribers()[j].name@ == earlier[j - known]);
        } else {
            assert(third.subscribers()[j].name@ == later[j - middle]);
        }
    }
    assert forall|j: int|
        first.failures().len() <= j < third.failures().len() implies names.contains(
        (#[trigger] third.failures()[j]).actor@,
    ) by {
        if j < second.failures().len() {
            assert(third.failures()[j] == second.failures()[j]);
            let failed = second.failures()[j].actor@;
            let at = choose|at: int| 0 <= at < earlier.len() && earlier[at] == failed;
            assert(names[at] == earlier[at]);
        } else {
            let failed = third.failures()[j].actor@;
            let at = choose|at: int| 0 <= at < later.len() && later[at] == failed;
            assert(names[earlier.len() + at] == later[at]);
        }
    }
}

} // verus!
