use charon_core::actor::{next_turn, Actor, ActorState, ProcessorState, Relay, SpawnError, Turn};
use charon_core::config::CharonConfig;
use charon_core::daemon::{build_processors, Daemon, RunStep, CHANNEL_CAPACITY};
use charon_core::event::{DomainEvent, Event, EventView, Mode, Modifiers};
use charon_core::pipeline::{run_chain, Processor, Reaction};
use charon_core::topic::Topic;
use std::time::Duration;
use tokio::runtime::{Builder, Runtime};
use tokio::task::JoinHandle;

static KEY_INPUT: [Topic; 1] = [Topic::KeyInput];
static STATS: [Topic; 1] = [Topic::Stats];
static SYSTEM: [Topic; 1] = [Topic::System];

fn runtime() -> Runtime {
    Builder::new_current_thread().enable_all().build().unwrap()
}

fn press(code: u16) -> Event {
    Event::new("kbd".to_string(), DomainEvent::KeyPress(code, Modifiers::none()))
}

/// A processor that stamps what passes with the name it was built for.
struct Stamp {
    label: String,
}

impl Processor for Stamp {
    type State = ();

    fn state(&self) {}

    fn reacts(_state: (), _event: EventView, _reaction: Reaction<()>) -> bool {
        unreachable!()
    }

    fn process(&mut self, event: Event) -> Vec<Event> {
        vec![Event::new(format!("{}>{}", event.source, self.label), event.payload)]
    }
}

fn first_stamp(state: ProcessorState) -> Stamp {
    Stamp { label: format!("first:{}", state.name) }
}

fn second_stamp(state: ProcessorState) -> Stamp {
    Stamp { label: format!("second:{}:{}", state.name, state.config.keyboards.len()) }
}

/// Publishes whatever it receives, through its chain, until told to stop.
async fn echo<P: Processor>(mut state: ActorState<P>) {
    loop {
        match next_turn(state.receiver.recv().await) {
            Turn::Stop => break,
            Turn::Handle(event) => {
                for out in run_chain(&mut state.processors, event) {
                    let _ = state.sender.send(out).await;
                }
            }
        }
    }
}

struct Echo;

impl Actor for Echo {
    type Init = ();
    type Link = Relay;
    const NAME: &'static str = "Echo";

    fn spawn(state: ActorState<Relay>, _init: ()) -> Result<JoinHandle<()>, SpawnError> {
        Ok(tokio::spawn(echo(state)))
    }
}

struct Stamper;

impl Actor for Stamper {
    type Init = ();
    type Link = Stamp;
    const NAME: &'static str = "Stamper";

    fn spawn(state: ActorState<Stamp>, _init: ()) -> Result<JoinHandle<()>, SpawnError> {
        Ok(tokio::spawn(echo(state)))
    }
}

struct Broken;

impl Actor for Broken {
    type Init = ();
    type Link = Relay;
    const NAME: &'static str = "Broken";

    fn spawn(_state: ActorState<Relay>, _init: ()) -> Result<JoinHandle<()>, SpawnError> {
        Err(SpawnError { reason: "no device".to_string() })
    }
}

/// Starts only for the device it likes, and reports what it was given.
struct Scanner;

impl Actor for Scanner {
    type Init = String;
    type Link = Relay;
    const NAME: &'static str = "KeyScanner";

    fn spawn(state: ActorState<Relay>, init: String) -> Result<JoinHandle<()>, SpawnError> {
        if init == "broken" {
            return Err(SpawnError { reason: format!("cannot open {init}") });
        }
        Ok(tokio::spawn(async move {
            let report = format!("{}|{}|{}", state.name, init, state.config.keyboards.join(","));
            let _ = state.sender.send(Event::new(report, DomainEvent::TextSent)).await;
            echo(state).await;
        }))
    }
}

fn names(daemon: &Daemon) -> Vec<String> {
    let mut names = Vec::new();
    let mut position = 0;
    while let Some(subscriber) = daemon.broker().subscriber(position) {
        names.push(subscriber.name.clone());
        position += 1;
    }
    names
}

/// Lets the spawned actors run and stops them, as the daemon's owner does.
async fn stop_and_join(daemon: &mut Daemon) {
    for delivery in daemon.stop() {
        delivery.sender.send(delivery.event).await.unwrap();
    }
    for handle in daemon.shutdown() {
        tokio::time::timeout(Duration::from_secs(5), handle).await.unwrap().unwrap();
    }
}

#[test]
fn new_daemon_is_empty() {
    let daemon = Daemon::new();
    assert_eq!(daemon.task_count(), 0);
    assert_eq!(daemon.spawn_failures().len(), 0);
    assert_eq!(daemon.broker().subscriber_count(), 0);
    assert_eq!(daemon.configuration(), &CharonConfig::default());
    assert_eq!(*daemon.shared_mode().try_read().unwrap(), Mode::PassThrough);
    assert_eq!(daemon.publisher().max_capacity(), CHANNEL_CAPACITY);
    assert_eq!(CHANNEL_CAPACITY, 128);
}

#[test]
fn add_actor_registers_and_spawns() {
    runtime().block_on(async {
        let mut daemon = Daemon::new();
        daemon.add_actor::<Echo>(&KEY_INPUT).add_actor::<Echo>(&STATS);
        assert_eq!(daemon.task_count(), 2);
        assert_eq!(names(&daemon), vec!["Echo", "Echo"]);
        assert_eq!(daemon.broker().subscriber(0).unwrap().topics, &KEY_INPUT[..]);
        assert_eq!(daemon.broker().subscriber(1).unwrap().topics, &STATS[..]);
        assert_eq!(daemon.broker().subscriber(0).unwrap().sender.max_capacity(), 128);
        stop_and_join(&mut daemon).await;
    });
}

#[test]
fn failed_spawn_leaves_the_others_alone() {
    runtime().block_on(async {
        let mut daemon = Daemon::new();
        daemon.add_actor::<Echo>(&KEY_INPUT).add_actor::<Broken>(&STATS).add_actor::<Echo>(&SYSTEM);
        assert_eq!(daemon.task_count(), 2);
        assert_eq!(names(&daemon), vec!["Echo", "Broken", "Echo"]);
        let failures = daemon.spawn_failures();
        assert_eq!(failures.len(), 1);
        assert_eq!(failures[0].actor, "Broken");
        assert_eq!(failures[0].error, SpawnError { reason: "no device".to_string() });
        for delivery in daemon.stop() {
            let _ = delivery.sender.send(delivery.event).await;
        }
        for handle in daemon.shutdown() {
            tokio::time::timeout(Duration::from_secs(5), handle).await.unwrap().unwrap();
        }
    });
}

#[test]
fn enroll_gives_the_actor_its_channel_and_its_state() {
    let mut daemon = Daemon::new();
    daemon.with_config(CharonConfig::new(vec!["left".to_string()]));
    let config = CharonConfig::new(vec!["pad".to_string()]);
    let mut state = daemon.enroll("lonely".to_string(), &KEY_INPUT, config, vec![Relay, Relay]);

    assert_eq!(state.name, "lonely");
    assert_eq!(state.config, CharonConfig::new(vec!["pad".to_string()]));
    assert_eq!(state.processors.len(), 2);
    assert!(std::sync::Arc::ptr_eq(&state.mode, &daemon.shared_mode()));
    assert_eq!(names(&daemon), vec!["lonely"]);
    assert_eq!(daemon.task_count(), 0);
    assert_eq!(daemon.spawn_failures().len(), 0);
    assert_eq!(daemon.configuration().keyboards, vec!["left"]);

    // What the broker routes to the subscription arrives at the state.
    for delivery in daemon.broker().broadcast(&press(30), false) {
        delivery.sender.try_send(delivery.event).unwrap();
    }
    assert_eq!(state.receiver.try_recv().ok(), Some(press(30)));
    // What the actor publishes arrives at the broker.
    state.sender.try_send(press(31)).unwrap();
    assert_eq!(daemon.inbound().try_recv().ok(), Some(press(31)));
}

#[test]
fn record_spawn_keeps_the_handle_or_the_failure() {
    runtime().block_on(async {
        let mut daemon = Daemon::new();
        daemon.record_spawn("idle".to_string(), Ok(tokio::spawn(async {})));
        assert_eq!(daemon.task_count(), 1);
        assert_eq!(daemon.spawn_failures().len(), 0);
        daemon.record_spawn(
            "stuck".to_string(),
            Err(SpawnError { reason: "busy".to_string() }),
        );
        assert_eq!(daemon.task_count(), 1);
        assert_eq!(daemon.spawn_failures().len(), 1);
        assert_eq!(daemon.spawn_failures()[0].actor, "stuck");
        assert_eq!(daemon.spawn_failures()[0].error.reason, "busy");
        for handle in daemon.shutdown() {
            handle.await.unwrap();
        }
    });
}

/// Writes the mode it is given a handle to, and ends at once.
struct Switch;

impl Actor for Switch {
    type Init = Mode;
    type Link = Relay;
    const NAME: &'static str = "Switch";

    fn spawn(state: ActorState<Relay>, init: Mode) -> Result<JoinHandle<()>, SpawnError> {
        *state.mode.try_write().unwrap() = init;
        Ok(tokio::spawn(async {}))
    }
}

/// Tells on the broker's channel which mode it reads at its start.
struct Reader;

impl Actor for Reader {
    type Init = ();
    type Link = Relay;
    const NAME: &'static str = "Reader";

    fn spawn(state: ActorState<Relay>, _init: ()) -> Result<JoinHandle<()>, SpawnError> {
        let seen = *state.mode.try_read().unwrap();
        let report = Event::new(state.name.clone(), DomainEvent::ModeChange(seen));
        state.sender.try_send(report).unwrap();
        Ok(tokio::spawn(async {}))
    }
}

#[test]
fn every_actor_is_given_the_one_mode_and_the_brokers_channel() {
    runtime().block_on(async {
        let mut daemon = Daemon::new();
        daemon.add_actor::<Reader>(&SYSTEM);
        daemon.add_actor_with_init::<Switch>(Mode::InApp, &SYSTEM);
        assert_eq!(*daemon.shared_mode().try_read().unwrap(), Mode::InApp);
        daemon.add_actor_conditionally::<Reader>(true, &SYSTEM);
        let no_factories: [fn(ProcessorState) -> Relay; 0] = [];
        daemon.add_actor_with_processors::<Reader, _>(&SYSTEM, &no_factories);
        daemon.add_actor_with_init::<Switch>(Mode::PassThrough, &SYSTEM);
        daemon.add_pipeline::<Reader, _>("late", &SYSTEM, &no_factories);

        let mut told = Vec::new();
        while let Ok(event) = daemon.inbound().try_recv() {
            told.push((event.source, event.payload));
        }
        assert_eq!(
            told,
            vec![
                ("Reader".to_string(), DomainEvent::ModeChange(Mode::PassThrough)),
                ("Reader".to_string(), DomainEvent::ModeChange(Mode::InApp)),
                ("Reader".to_string(), DomainEvent::ModeChange(Mode::InApp)),
                ("late".to_string(), DomainEvent::ModeChange(Mode::PassThrough)),
            ]
        );
        assert_eq!(daemon.task_count(), 6);
        for handle in daemon.shutdown() {
            handle.await.unwrap();
        }
    });
}

#[test]
fn conditional_actor_is_added_only_when_asked() {
    runtime().block_on(async {
        let mut daemon = Daemon::new();
        daemon.add_actor_conditionally::<Echo>(false, &KEY_INPUT);
        assert_eq!(daemon.task_count(), 0);
        assert_eq!(daemon.broker().subscriber_count(), 0);
        daemon.add_actor_conditionally::<Echo>(true, &KEY_INPUT);
        assert_eq!(daemon.task_count(), 1);
        assert_eq!(names(&daemon), vec!["Echo"]);
        stop_and_join(&mut daemon).await;
    });
}

#[test]
fn scanners_are_added_one_per_device() {
    runtime().block_on(async {
        let mut daemon = Daemon::new();
        daemon
            .with_config(CharonConfig::new(vec![
                "left".to_string(),
                "broken".to_string(),
                "right".to_string(),
            ]))
            .add_scanners::<Scanner>(&KEY_INPUT);
        assert_eq!(
            names(&daemon),
            vec!["KeyScanner-left", "KeyScanner-broken", "KeyScanner-right"]
        );
        assert_eq!(daemon.task_count(), 2);
        assert_eq!(daemon.spawn_failures().len(), 1);
        assert_eq!(daemon.spawn_failures()[0].actor, "KeyScanner-broken");
        assert_eq!(daemon.spawn_failures()[0].error.reason, "cannot open broken");

        let first = daemon.inbound().recv().await.unwrap();
        let second = daemon.inbound().recv().await.unwrap();
        let mut reports = vec![first.source, second.source];
        reports.sort();
        assert_eq!(reports, vec!["KeyScanner-left|left|left", "KeyScanner-right|right|right"]);
        for delivery in daemon.stop() {
            let _ = delivery.sender.send(delivery.event).await;
        }
        for handle in daemon.shutdown() {
            tokio::time::timeout(Duration::from_secs(5), handle).await.unwrap().unwrap();
        }
    });
}

#[test]
fn no_device_no_scanner() {
    let mut daemon = Daemon::new();
    daemon.add_scanners::<Scanner>(&KEY_INPUT);
    assert_eq!(daemon.task_count(), 0);
    assert_eq!(daemon.broker().subscriber_count(), 0);
}

#[test]
fn actor_with_init_is_started_with_it() {
    runtime().block_on(async {
        let mut daemon = Daemon::new();
        daemon.add_actor_with_init::<Scanner>("pad".to_string(), &KEY_INPUT);
        assert_eq!(names(&daemon), vec!["KeyScanner"]);
        assert_eq!(daemon.task_count(), 1);
        let report = daemon.inbound().recv().await.unwrap();
        assert_eq!(report.source, "KeyScanner|pad|");
        stop_and_join(&mut daemon).await;
    });
}

#[test]
fn processors_are_built_in_order_from_the_actors_snapshot() {
    runtime().block_on(async {
        let mut daemon = Daemon::new();
        daemon.with_config(CharonConfig::new(vec!["left".to_string()]));
        let factories: [fn(ProcessorState) -> Stamp; 2] = [first_stamp, second_stamp];
        daemon.add_actor_with_processors::<Stamper, _>(&KEY_INPUT, &factories);
        assert_eq!(names(&daemon), vec!["Stamper"]);
        assert_eq!(daemon.task_count(), 1);

        match daemon.run(Some(press(30))) {
            RunStep::Forward(deliveries) => {
                assert_eq!(deliveries.len(), 1);
                for delivery in deliveries {
                    delivery.sender.send(delivery.event).await.unwrap();
                }
            }
            RunStep::Stopped(_) => panic!("an event does not stop the daemon"),
        }
        let out = daemon.inbound().recv().await.unwrap();
        assert_eq!(out.source, "kbd>first:Stamper>second:Stamper:1");
        assert_eq!(out.payload, DomainEvent::KeyPress(30, Modifiers::none()));
        stop_and_join(&mut daemon).await;
    });
}

#[test]
fn pipeline_is_registered_under_the_given_name() {
    runtime().block_on(async {
        let mut daemon = Daemon::new();
        let factories: [fn(ProcessorState) -> Stamp; 2] = [second_stamp, first_stamp];
        daemon.add_pipeline::<Stamper, _>("typing", &KEY_INPUT, &factories);
        assert_eq!(names(&daemon), vec!["typing"]);
        for delivery in daemon.broker().broadcast(&press(1), false) {
            delivery.sender.send(delivery.event).await.unwrap();
        }
        let out = daemon.inbound().recv().await.unwrap();
        assert_eq!(out.source, "kbd>second:typing:0>first:typing");
        stop_and_join(&mut daemon).await;
    });
}

#[test]
fn build_processors_calls_each_factory_once_in_order() {
    let daemon = Daemon::new();
    let snapshot = ProcessorState::new(
        "chain".to_string(),
        daemon.shared_mode(),
        CharonConfig::new(vec!["a".to_string(), "b".to_string()]),
    );
    let factories: [fn(ProcessorState) -> Stamp; 3] = [first_stamp, second_stamp, first_stamp];
    let built = build_processors(&snapshot, &factories);
    let labels: Vec<&str> = built.iter().map(|stamp| stamp.label.as_str()).collect();
    assert_eq!(labels, vec!["first:chain", "second:chain:2", "first:chain"]);
    let none: [fn(ProcessorState) -> Stamp; 0] = [];
    assert_eq!(build_processors(&snapshot, &none).len(), 0);
}

#[test]
fn config_is_set_and_transformed() {
    let mut daemon = Daemon::new();
    daemon.with_config(CharonConfig::new(vec!["left".to_string()]));
    assert_eq!(daemon.configuration().keyboards, vec!["left"]);
    daemon.update_config(|mut config: CharonConfig| {
        config.keyboards.push("right".to_string());
        config
    });
    assert_eq!(daemon.configuration().keyboards, vec!["left", "right"]);
    assert_eq!(daemon.task_count(), 0);
}

#[test]
fn config_per_keyboard() {
    let config = CharonConfig::new(vec!["left".to_string(), "right".to_string()]);
    let entries = config.get_config_per_keyboard();
    assert_eq!(
        entries,
        vec![
            ("left".to_string(), CharonConfig::new(vec!["left".to_string()])),
            ("right".to_string(), CharonConfig::new(vec!["right".to_string()])),
        ]
    );
    assert_eq!(CharonConfig::default().get_config_per_keyboard().len(), 0);
    assert_eq!(config.clone(), config);
}

#[test]
fn stop_sends_exit_to_everyone_and_every_task_ends() {
    runtime().block_on(async {
        let mut daemon = Daemon::new();
        daemon.add_actor::<Echo>(&KEY_INPUT).add_actor::<Echo>(&STATS).add_actor::<Echo>(&SYSTEM);
        {
            let deliveries = daemon.stop();
            let targets: Vec<usize> = deliveries.iter().map(|d| d.subscriber).collect();
            assert_eq!(targets, vec![0, 1, 2]);
            for delivery in deliveries {
                assert_eq!(delivery.event, Event::new("broker".to_string(), DomainEvent::Exit));
                delivery.sender.send(delivery.event).await.unwrap();
            }
        }
        let handles = daemon.shutdown();
        assert_eq!(handles.len(), 3);
        assert_eq!(daemon.task_count(), 0);
        for handle in handles {
            tokio::time::timeout(Duration::from_secs(5), handle).await.unwrap().unwrap();
        }
        assert_eq!(daemon.shutdown().len(), 0);
    });
}

#[test]
fn run_forwards_by_topic_and_stops_on_a_closed_channel() {
    runtime().block_on(async {
        let mut daemon = Daemon::new();
        daemon.add_actor::<Echo>(&KEY_INPUT).add_actor::<Echo>(&STATS);
        match daemon.run(Some(press(30))) {
            RunStep::Forward(deliveries) => {
                let targets: Vec<usize> = deliveries.iter().map(|d| d.subscriber).collect();
                assert_eq!(targets, vec![0]);
                for delivery in deliveries {
                    delivery.sender.send(delivery.event).await.unwrap();
                }
            }
            RunStep::Stopped(_) => panic!("an event does not stop the daemon"),
        }
        assert_eq!(daemon.inbound().recv().await, Some(press(30)));
        match daemon.run(None) {
            RunStep::Stopped(deliveries) => {
                let targets: Vec<usize> = deliveries.iter().map(|d| d.subscriber).collect();
                assert_eq!(targets, vec![0, 1]);
                for delivery in deliveries {
                    assert!(delivery.event.is_exit());
                    delivery.sender.send(delivery.event).await.unwrap();
                }
            }
            RunStep::Forward(_) => panic!("a closed channel stops the daemon"),
        }
        for handle in daemon.shutdown() {
            tokio::time::timeout(Duration::from_secs(5), handle).await.unwrap().unwrap();
        }
    });
}

#[test]
fn publisher_is_a_sending_end_of_the_brokers_channel() {
    let mut daemon = Daemon::new();
    let first = daemon.publisher();
    let second = daemon.publisher();
    assert!(first.same_channel(&second));
    let (elsewhere, _kept) = tokio::sync::mpsc::channel::<Event>(CHANNEL_CAPACITY);
    assert!(!first.same_channel(&elsewhere));
    first.try_send(press(1)).unwrap();
    second.try_send(press(2)).unwrap();
    assert_eq!(daemon.inbound().try_recv().ok(), Some(press(1)));
    assert_eq!(daemon.inbound().try_recv().ok(), Some(press(2)));
    assert!(daemon.inbound().try_recv().is_err());
}

#[test]
fn actors_publish_on_the_brokers_channel() {
    runtime().block_on(async {
        let mut daemon = Daemon::new();
        daemon.add_actor::<Echo>(&KEY_INPUT);
        daemon.publisher().send(press(7)).await.unwrap();
        let published = daemon.inbound().recv().await;
        assert_eq!(published, Some(press(7)));
        stop_and_join(&mut daemon).await;
    });
}
