//! The client's loop, as a machine that the caller drives.
//!
//! The client reads records from the daemon, ticks a timer, and lets its
//! applications answer with commands; a command may in turn send messages
//! to applications. All of that is decided here. What the machine cannot do
//! itself, it asks for: painting, writing to the socket, asking the
//! application in front. The caller does what is asked and comes back with
//! the answer, until the machine asks for nothing more.
//!
//! Work that a command leaves for later waits in a queue, so that handling a
//! command never nests, however the applications answer.

use vstd::prelude::*;
use vstd::string::StringExecFns;
use std::collections::VecDeque;
use crate::app_manager::{
    lends_front, update_view, AppManager, AppMsg, AppMsgView, Command, CommandView, ManagerView,
    Routed,
};
use crate::event::{DomainEvent, DomainEventView, Event, EventView};
use crate::wire::{decode_line, decoded, trimmed};

verus! {

/// Something that only the caller can do, and that may fail.
#[derive(Debug, PartialEq, Eq)]
pub enum Effect {
    /// Paint the application that `AppManager::render` shows.
    Redraw,
    /// Write this event to the daemon, as one record.
    Send(Event),
    /// Hand the terminal back to the shell.
    SuspendTui,
    /// Take the terminal again.
    ResumeTui,
    /// Wipe the screen.
    ClearScreen,
}

/// The mathematical value of an [`Effect`].
pub enum EffectView {
    Redraw,
    Send(EventView),
    SuspendTui,
    ResumeTui,
    ClearScreen,
}

impl View for Effect {
    type V = EffectView;

    open spec fn view(&self) -> EffectView {
        match *self {
            Effect::Redraw => EffectView::Redraw,
            Effect::Send(event) => EffectView::Send(event@),
            Effect::SuspendTui => EffectView::SuspendTui,
            Effect::ResumeTui => EffectView::ResumeTui,
            Effect::ClearScreen => EffectView::ClearScreen,
        }
    }
}

/// A piece of work that waits in the client's queue.
#[derive(Debug, PartialEq, Eq)]
pub enum Task {
    /// Hand this message to the switcher.
    Deliver(AppMsg),
    /// Bring the application of this name to the front.
    Activate(String),
    /// Ask the caller for this effect. The flag marks an effect that
    /// continues the one before it and is given up if that one failed.
    Perform(Effect, bool),
}

/// The mathematical value of a [`Task`].
pub enum TaskView {
    Deliver(AppMsgView),
    Activate(Seq<char>),
    Perform(EffectView, bool),
}

impl View for Task {
    type V = TaskView;

    open spec fn view(&self) -> TaskView {
        match *self {
            Task::Deliver(msg) => TaskView::Deliver(msg@),
            Task::Activate(app) => TaskView::Activate(app@),
            Task::Perform(effect, chained) => TaskView::Perform(effect@, chained),
        }
    }
}

/// What the machine asks of the caller.
#[derive(Debug, PartialEq, Eq)]
pub enum Request {
    /// Hand this message to the application in front, and come back with
    /// `Input::Answer` and the command that it returned, if any.
    Ask(AppMsg),
    /// Do this, and come back with `Input::Done` or `Input::Failed`.
    Perform(Effect),
}

/// The mathematical value of a [`Request`].
pub enum RequestView {
    Ask(AppMsgView),
    Perform(EffectView),
}

impl View for Request {
    type V = RequestView;

    open spec fn view(&self) -> RequestView {
        match *self {
            Request::Ask(msg) => RequestView::Ask(msg@),
            Request::Perform(effect) => RequestView::Perform(effect@),
        }
    }
}

/// What the caller brings to the machine.
#[derive(Debug, PartialEq, Eq)]
pub enum Input {
    /// The daemon closed the connection.
    Closed,
    /// A record arrived and held this event.
    Record(Event),
    /// A record arrived that could not be read as an event.
    Malformed,
    /// The timer ticked, this many milliseconds after the last tick.
    Tick(u64),
    /// What the application in front returned for the message it was asked.
    Answer(Option<Command>),
    /// The effect asked for was done.
    Done,
    /// The effect asked for failed.
    Failed,
}

/// The mathematical value of an [`Input`].
pub enum InputView {
    Closed,
    Record(EventView),
    Malformed,
    Tick(u64),
    Answer(Option<CommandView>),
    Done,
    Failed,
}

impl View for Input {
    type V = InputView;

    open spec fn view(&self) -> InputView {
        match *self {
            Input::Closed => InputView::Closed,
            Input::Record(event) => InputView::Record(event@),
            Input::Malformed => InputView::Malformed,
            Input::Tick(millis) => InputView::Tick(millis),
            Input::Answer(None) => InputView::Answer(None),
            Input::Answer(Some(command)) => InputView::Answer(Some(command@)),
            Input::Done => InputView::Done,
            Input::Failed => InputView::Failed,
        }
    }
}

/// The client as a mathematical value.
pub struct ClientView {
    /// The switcher.
    pub manager: ManagerView,
    /// Whether the loop is to end.
    pub should_quit: bool,
    /// The work that waits, the next piece first.
    pub tasks: Seq<TaskView>,
}

/// The client: its switcher, whether it is to quit, and the work that waits.
pub struct CharonClient<A> {
    app_mngr: AppManager<A>,
    should_quit: bool,
    tasks: VecDeque<Task>,
}

/// The mathematical values of a queue of tasks.
pub open spec fn task_views(tasks: Seq<Task>) -> Seq<TaskView> {
    tasks.map_values(|task: Task| task@)
}

/// The event that the client sends for a payload: raised by `client`.
pub open spec fn outgoing(payload: DomainEventView) -> EventView {
    EventView { source: "client"@, payload }
}

/// The switcher after an attempt to bring `app` to the front: an
/// application that is not known leaves the front as it is.
pub open spec fn activate_view(manager: ManagerView, app: Seq<char>) -> ManagerView {
    if manager.ids.contains(app) {
        ManagerView { active_id: app, ..manager }
    } else {
        manager
    }
}

/// The work that a command stands for, in the order in which it is done.
/// To run an application is to tell the one in front that it leaves, to
/// switch, to tell the new one that it is in front, and to paint; an
/// application that is not known is not run. To resume is to take the
/// terminal, wipe it and paint, each step only if the one before it worked.
/// `Exit` leaves no work: it is the flag that changes.
pub open spec fn plan_for(manager: ManagerView, command: CommandView) -> Seq<TaskView> {
    match command {
        CommandView::Render => seq![TaskView::Perform(EffectView::Redraw, false)],
        CommandView::SendEvent(payload) => seq![
            TaskView::Perform(EffectView::Send(outgoing(payload)), false),
        ],
        CommandView::SuspendTUI => seq![TaskView::Perform(EffectView::SuspendTui, false)],
        CommandView::ResumeTUI => seq![
            TaskView::Perform(EffectView::ResumeTui, false),
            TaskView::Perform(EffectView::ClearScreen, true),
            TaskView::Perform(EffectView::Redraw, true),
        ],
        CommandView::RunApp(app) => if manager.ids.contains(app) {
            seq![
                TaskView::Deliver(AppMsgView::Deactivate),
                TaskView::Activate(app),
                TaskView::Deliver(AppMsgView::Activate),
                TaskView::Perform(EffectView::Redraw, false),
            ]
        } else {
            Seq::empty()
        },
        CommandView::Exit => Seq::empty(),
    }
}

/// The queue without the effects at its head that continue a failed one.
pub open spec fn without_chained(tasks: Seq<TaskView>) -> Seq<TaskView>
    decreases tasks.len(),
{
    if tasks.len() > 0 && tasks[0] matches TaskView::Perform(_, true) {
        without_chained(tasks.skip(1))
    } else {
        tasks
    }
}

/// What an input does to the client before any work is taken up. A closed
/// connection sets the flag to quit. A record and a tick put a message
/// for the switcher at the head of the queue. A record that could not be
/// read changes nothing. A command puts its work at the head of the queue,
/// and `Exit` sets the flag. A failed effect takes the effects that continue
/// it off the queue.
pub open spec fn absorb_view(client: ClientView, input: InputView) -> ClientView {
    match input {
        InputView::Closed => ClientView { should_quit: true, ..client },
        InputView::Record(event) => ClientView {
            tasks: seq![TaskView::Deliver(AppMsgView::Backend(event.payload))] + client.tasks,
            ..client
        },
        InputView::Malformed => client,
        InputView::Tick(millis) => ClientView {
            tasks: seq![TaskView::Deliver(AppMsgView::TimerTick(millis))] + client.tasks,
            ..client
        },
        InputView::Answer(None) => client,
        InputView::Answer(Some(command)) => ClientView {
            should_quit: client.should_quit || command is Exit,
            tasks: plan_for(client.manager, command) + client.tasks,
            ..client
        },
        InputView::Done => client,
        InputView::Failed => ClientView { tasks: without_chained(client.tasks), ..client },
    }
}

/// Takes up the work that waits until something has to be asked of the
/// caller, or nothing is left. A message goes to the switcher first: what
/// the switcher takes itself is done with, or ends in a request to paint;
/// what it forwards is asked of the application in front.
pub open spec fn settle_view(client: ClientView) -> (ClientView, Option<RequestView>)
    decreases client.tasks.len(),
{
    if client.tasks.len() == 0 {
        (client, None)
    } else {
        let rest = client.tasks.skip(1);
        match client.tasks[0] {
            TaskView::Deliver(msg) => {
                let (manager, routed) = update_view(client.manager, msg);
                let next = ClientView { manager, tasks: rest, ..client };
                match routed {
                    Routed::Render => (next, Some(RequestView::Perform(EffectView::Redraw))),
                    Routed::Forward => (next, Some(RequestView::Ask(msg))),
                    Routed::Dropped => settle_view(next),
                }
            },
            TaskView::Activate(app) => settle_view(
                ClientView { manager: activate_view(client.manager, app), tasks: rest, ..client },
            ),
            TaskView::Perform(effect, _) => (
                ClientView { tasks: rest, ..client },
                Some(RequestView::Perform(effect)),
            ),
        }
    }
}

/// One turn of the client: the input is taken in, then work is taken up.
pub open spec fn run_view(client: ClientView, input: InputView) -> (
    ClientView,
    Option<RequestView>,
) {
    settle_view(absorb_view(client, input))
}

/// The mathematical value of what `run` returns.
pub open spec fn request_view(request: Option<Request>) -> Option<RequestView> {
    match request {
        Some(request) => Some(request@),
        None => None,
    }
}

/// Tells what a read from the daemon amounts to. A read of no bytes means
/// that the daemon closed the connection, whatever else is given. Otherwise
/// the line either held an event or was malformed.
pub fn classify_read(bytes: usize, record: Option<Event>) -> (input: Input)
    ensures
        input@ == if bytes == 0 {
            InputView::Closed
        } else {
            match record {
                Some(event) => InputView::Record(event@),
                None => InputView::Malformed,
            }
        },
{
    if bytes == 0 {
        Input::Closed
    } else {
        match record {
            Some(event) => Input::Record(event),
            None => Input::Malformed,
        }
    }
}

/// Tells what a line read from the daemon amounts to. A read of no bytes
/// means that the daemon closed the connection. Otherwise the line, without
/// the blanks around it, either is the record of an event or is malformed.
pub fn read_line(bytes: usize, line: &str) -> (input: Input)
    ensures
        input@ == if bytes == 0 {
            InputView::Closed
        } else {
            match decoded(trimmed(line@)) {
                Some(event) => InputView::Record(event),
                None => InputView::Malformed,
            }
        },
{
    if bytes == 0 {
        Input::Closed
    } else {
        classify_read(bytes, decode_line(line))
    }
}

impl<A> View for CharonClient<A> {
    type V = ClientView;

    closed spec fn view(&self) -> ClientView {
        ClientView {
            manager: self.app_mngr@,
            should_quit: self.should_quit,
            tasks: task_views(self.tasks@),
        }
    }
}

impl<A> CharonClient<A> {
    /// The switcher that the client holds.
    pub closed spec fn manager(&self) -> AppManager<A> {
        self.app_mngr
    }

    /// A client around `app_mngr` that is not to quit and has no work.
    pub fn new(app_mngr: AppManager<A>) -> (client: Self)
        ensures
            client.manager() == app_mngr,
            client@ == (ClientView {
                manager: app_mngr@,
                should_quit: false,
                tasks: Seq::empty(),
            }),
    {
        let client = CharonClient { app_mngr, should_quit: false, tasks: VecDeque::new() };
        assert(task_views(client.tasks@) =~= Seq::<TaskView>::empty());
        client
    }

    /// Whether the loop is to end.
    pub fn should_quit(&self) -> (quit: bool)
        ensures
            quit == self@.should_quit,
    {
        self.should_quit
    }

    /// Whether no work waits.
    pub fn is_idle(&self) -> (idle: bool)
        ensures
            idle == (self@.tasks.len() == 0),
    {
        self.tasks.len() == 0
    }

    /// The switcher, to paint from.
    pub fn app_manager(&self) -> (manager: &AppManager<A>)
        ensures
            *manager == self.manager(),
            manager@ == self@.manager,
    {
        &self.app_mngr
    }

    /// One turn of the loop. The input is taken in, and work is taken up
    /// until something has to be asked of the caller: that is returned.
    /// `None` means that nothing is left to do but to wait for the next
    /// record or tick, or to leave if `should_quit` says so.
    pub fn run(&mut self, input: Input) -> (request: Option<Request>)
        ensures
            (final(self)@, request_view(request)) == run_view(old(self)@, input@),
            final(self).manager().entries() == old(self).manager().entries(),
    {
        self.absorb(input);
        self.settle()
    }

    /// Takes an input in, without taking up any work.
    fn absorb(&mut self, input: Input)
        ensures
            final(self)@ == absorb_view(old(self)@, input@),
            final(self).manager() == old(self).manager(),
    {
        match input {
            Input::Closed => {
                self.should_quit = true;
            },
            Input::Record(event) => {
                self.update_with_msg(AppMsg::Backend(event.payload));
            },
            Input::Malformed => {},
            Input::Tick(millis) => {
                self.update_with_msg(AppMsg::TimerTick(millis));
            },
            Input::Answer(None) => {},
            Input::Answer(Some(command)) => {
                self.handle_command(command);
            },
            Input::Done => {},
            Input::Failed => {
                self.drop_chained();
            },
        }
    }

    /// Puts a message for the switcher at the head of the queue.
    fn update_with_msg(&mut self, msg: AppMsg)
        ensures
            final(self)@ == (ClientView {
                tasks: seq![TaskView::Deliver(msg@)] + old(self)@.tasks,
                ..old(self)@
            }),
            final(self).manager() == old(self).manager(),
    {
        self.push(Task::Deliver(msg));
    }

    /// Puts one task at the head of the queue.
    fn push(&mut self, task: Task)
        ensures
            final(self)@ == (ClientView {
                tasks: seq![task@] + old(self)@.tasks,
                ..old(self)@
            }),
            final(self).manager() == old(self).manager(),
    {
        self.tasks.push_front(task);
        assert(task_views(self.tasks@) =~= seq![task@] + task_views(old(self).tasks@));
    }

    /// Turns a command into the work it stands for, at the head of the
    /// queue, and sets the flag on `Exit`.
    fn handle_command(&mut self, command: Command)
        ensures
            final(self)@ == (ClientView {
                should_quit: old(self)@.should_quit || command@ is Exit,
                tasks: plan_for(old(self)@.manager, command@) + old(self)@.tasks,
                ..old(self)@
            }),
            final(self).manager() == old(self).manager(),
    {
        let ghost before = self@.tasks;
        match command {
            Command::Render => {
                self.push(Task::Perform(Effect::Redraw, false));
            },
            Command::SendEvent(payload) => {
                let event = Self::send(payload);
                self.push(Task::Perform(Effect::Send(event), false));
            },
            Command::SuspendTUI => {
                self.push(Task::Perform(Effect::SuspendTui, false));
            },
            Command::ResumeTUI => {
                self.push(Task::Perform(Effect::Redraw, true));
                self.push(Task::Perform(Effect::ClearScreen, true));
                self.push(Task::Perform(Effect::ResumeTui, false));
            },
            Command::RunApp(app) => {
                if self.app_mngr.has_app(app.as_str()) {
                    self.push(Task::Perform(Effect::Redraw, false));
                    self.push(Task::Deliver(AppMsg::Activate));
                    self.push(Task::Activate(app));
                    self.push(Task::Deliver(AppMsg::Deactivate));
                }
            },
            Command::Exit => {
                self.should_quit = true;
            },
        }
        assert(self@.tasks =~= plan_for(old(self)@.manager, command@) + before);
    }

    /// The event to send for a payload.
    fn send(payload: DomainEvent) -> (event: Event)
        ensures
            event@ == outgoing(payload@),
    {
        Event::new(String::from_str("client"), payload)
    }

    /// Takes the effects that continue a failed one off the queue.
    fn drop_chained(&mut self)
        ensures
            final(self)@ == (ClientView {
                tasks: without_chained(old(self)@.tasks),
                ..old(self)@
            }),
            final(self).manager() == old(self).manager(),
    {
        loop
            invariant
                self.app_mngr == old(self).app_mngr,
                self.should_quit == old(self).should_quit,
                without_chained(self@.tasks) == without_chained(old(self)@.tasks),
            ensures
                self.app_mngr == old(self).app_mngr,
                self.should_quit == old(self).should_quit,
                self@.tasks == without_chained(old(self)@.tasks),
            decreases self.tasks.len(),
        {
            if self.tasks.len() == 0 {
                break;
            }
            let chained = match &self.tasks[0] {
                Task::Perform(_, chained) => *chained,
                _ => false,
            };
            if !chained {
                assert(!(self@.tasks[0] matches TaskView::Perform(_, true)));
                break;
            }
            let ghost before = self@.tasks;
            assert(before[0] matches TaskView::Perform(_, true));
            let _ = self.tasks.pop_front();
            assert(self@.tasks =~= before.skip(1));
        }
    }

    /// Takes up the work that waits until something has to be asked.
    fn settle(&mut self) -> (request: Option<Request>)
        ensures
            (final(self)@, request_view(request)) == settle_view(old(self)@),
            final(self).manager().entries() == old(self).manager().entries(),
    {
        loop
            invariant
                settle_view(self@) == settle_view(old(self)@),
                self.manager().entries() == old(self).manager().entries(),
            decreases self.tasks.len(),
        {
            let ghost before = self@;
            let next = self.tasks.pop_front();
            proof {
                if next is Some {
                    assert(self@.tasks =~= before.tasks.skip(1));
                    assert(before.tasks[0] == next->0@);
                }
            }
            match next {
                None => {
                    return None;
                },
                Some(Task::Deliver(msg)) => {
                    match self.app_mngr.update(&msg) {
                        Routed::Render => {
                            return Some(Request::Perform(Effect::Redraw));
                        },
                        Routed::Forward => {
                            return Some(Request::Ask(msg));
                        },
                        Routed::Dropped => {},
                    }
                },
                Some(Task::Activate(app)) => {
                    self.app_mngr.set_active(app.as_str());
                },
                Some(Task::Perform(effect, _)) => {
                    return Some(Request::Perform(effect));
                },
            }
        }
    }

    /// The application in front, to hand the message of a `Request::Ask`
    /// to: the one that `AppManager::render` shows. Whatever the caller does
    /// to it, the client stays as it is.
    pub fn front_app(&mut self) -> (front: Option<&mut A>)
        ensures
            front is Some <==> old(self)@.manager.ids.contains(old(self)@.manager.active_id),
            front is None ==> final(self).manager() == old(self).manager(),
            front matches Some(app) ==> lends_front(
                old(self).manager().entries(),
                old(self)@.manager.active_id,
                *app,
                *final(app),
                final(self).manager().entries(),
            ),
            final(self)@ == old(self)@,
    {
        self.app_mngr.active_app_mut()
    }
}

/// Taking up work never adds work, never resets the flag to quit, and
/// never changes which applications there are.
pub proof fn lemma_settle_shrinks(client: ClientView)
    ensures
        settle_view(client).0.tasks.len() <= client.tasks.len(),
        settle_view(client).0.should_quit == client.should_quit,
        settle_view(client).0.manager.ids == client.manager.ids,
        settle_view(client).1 is None ==> settle_view(client).0.tasks.len() == 0,
    decreases client.tasks.len(),
{
    if client.tasks.len() > 0 {
        let rest = client.tasks.skip(1);
        match client.tasks[0] {
            TaskView::Deliver(msg) => {
                let (manager, routed) = update_view(client.manager, msg);
                if routed is Dropped {
                    lemma_settle_shrinks(ClientView { manager, tasks: rest, ..client });
                }
            },
            TaskView::Activate(app) => {
                lemma_settle_shrinks(
                    ClientView {
                        manager: activate_view(client.manager, app),
                        tasks: rest,
                        ..client
                    },
                );
            },
            TaskView::Perform(..) => {},
        }
    }
}

/// A record that cannot be read is discarded and the client goes on: it
/// is as it was, it is not told to quit, and with no work waiting it asks
/// for nothing. The next record is taken like any other.
pub proof fn law_malformed_record_is_discarded(client: ClientView)
    ensures
        absorb_view(client, InputView::Malformed) == client,
        client.tasks.len() == 0 ==> run_view(client, InputView::Malformed) == (
            client,
            None::<RequestView>,
        ),
{
}

/// A connection that the daemon closed ends the loop.
pub proof fn law_closed_connection_quits(client: ClientView)
    ensures
        run_view(client, InputView::Closed).0.should_quit,
{
    lemma_settle_shrinks(absorb_view(client, InputView::Closed));
}

/// The command `Exit` ends the loop, and nothing takes that back.
pub proof fn law_exit_is_final(client: ClientView, input: InputView)
    ensures
        input == InputView::Answer(Some(CommandView::Exit)) ==> run_view(
            client,
            input,
        ).0.should_quit,
        client.should_quit ==> run_view(client, input).0.should_quit,
{
    lemma_settle_shrinks(absorb_view(client, input));
}

/// To run an application that is not known does nothing at all.
pub proof fn law_unknown_app_is_not_run(client: ClientView, app: Seq<char>)
    requires
        !client.manager.ids.contains(app),
    ensures
        absorb_view(client, InputView::Answer(Some(CommandView::RunApp(app)))) == client,
{
    assert(Seq::<TaskView>::empty() + client.tasks =~= client.tasks);
}

/// However the applications answer, one turn adds at most four pieces of
/// work to the queue, and the applications that there are stay the same.
pub proof fn law_queue_is_bounded(client: ClientView, input: InputView)
    ensures
        run_view(client, input).0.tasks.len() <= client.tasks.len() + 4,
        run_view(client, input).0.manager.ids == client.manager.ids,
{
    let taken = absorb_view(client, input);
    lemma_settle_shrinks(taken);
    if input == InputView::Failed {
        lemma_without_chained_shrinks(client.tasks);
    }
}

/// Giving up the effects that continue a failed one adds no work.
proof fn lemma_without_chained_shrinks(tasks: Seq<TaskView>)
    ensures
        without_chained(tasks).len() <= tasks.len(),
    decreases tasks.len(),
{
    if tasks.len() > 0 && tasks[0] matches TaskView::Perform(_, true) {
        lemma_without_chained_shrinks(tasks.skip(1));
    }
}

} // verus!
