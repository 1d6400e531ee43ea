//! The client's screen switcher: which application is shown, and which
//! messages reach it.

use vstd::prelude::*;
use vstd::string::StringExecFns;
use crate::event::{DomainEvent, DomainEventView, Mode};
use crate::text::same_text;

verus! {

/// What the client tells its applications.
#[derive(Debug, PartialEq, Eq)]
pub enum AppMsg {
    /// An event that the daemon sent.
    Backend(DomainEvent),
    /// The timer ticked; the time since the last tick, in milliseconds.
    TimerTick(u64),
    /// The application comes to the front.
    Activate,
    /// The application leaves the front.
    Deactivate,
}

/// The mathematical value of an [`AppMsg`].
pub enum AppMsgView {
    Backend(DomainEventView),
    TimerTick(u64),
    Activate,
    Deactivate,
}

impl View for AppMsg {
    type V = AppMsgView;

    open spec fn view(&self) -> AppMsgView {
        match *self {
            AppMsg::Backend(event) => AppMsgView::Backend(event@),
            AppMsg::TimerTick(millis) => AppMsgView::TimerTick(millis),
            AppMsg::Activate => AppMsgView::Activate,
            AppMsg::Deactivate => AppMsgView::Deactivate,
        }
    }
}

/// What an application, or the switcher, asks the client to do.
#[derive(Debug, PartialEq, Eq)]
pub enum Command {
    /// Paint the screen.
    Render,
    /// Send this event to the daemon.
    SendEvent(DomainEvent),
    /// Hand the terminal back to the shell.
    SuspendTUI,
    /// Take the terminal again.
    ResumeTUI,
    /// Bring the application of this name to the front.
    RunApp(String),
    /// Leave.
    Exit,
}

/// The mathematical value of a [`Command`].
pub enum CommandView {
    Render,
    SendEvent(DomainEventView),
    SuspendTUI,
    ResumeTUI,
    RunApp(Seq<char>),
    Exit,
}

impl View for Command {
    type V = CommandView;

    open spec fn view(&self) -> CommandView {
        match *self {
            Command::Render => CommandView::Render,
            Command::SendEvent(event) => CommandView::SendEvent(event@),
            Command::SuspendTUI => CommandView::SuspendTUI,
            Command::ResumeTUI => CommandView::ResumeTUI,
            Command::RunApp(app) => CommandView::RunApp(app@),
            Command::Exit => CommandView::Exit,
        }
    }
}

/// What the switcher made of a message.
#[derive(Clone, Copy, Debug, PartialEq, Eq, Structural)]
pub enum Routed {
    /// The switcher took the message itself and wants the screen painted.
    Render,
    /// The message ends here: nothing is to be done.
    Dropped,
    /// The message is for the application in front; what that one answers
    /// is the command to carry out.
    Forward,
}

/// The switcher as a mathematical value.
pub struct ManagerView {
    /// The names of the applications, in the order given at construction.
    pub ids: Seq<Seq<char>>,
    /// The name of the application in front.
    pub active_id: Seq<char>,
    /// Whether the screen is on.
    pub is_awake: bool,
}

/// The applications of the client by name, the one in front, and whether the
/// screen is on. Where a name is given twice, the first entry counts.
pub struct AppManager<A> {
    apps: Vec<(String, A)>,
    active_id: String,
    is_awake: bool,
}

/// The screen that belongs to a mode.
pub open spec fn mode_screen_view(mode: Mode) -> Seq<char> {
    match mode {
        Mode::PassThrough => "charonsay"@,
        Mode::InApp => "menu"@,
    }
}

/// What a message does to the switcher, and where the message goes. A change
/// of mode brings the screen of that mode to the front and asks for it to be
/// painted. Sleep and wake-up turn the screen off and on. Everything else is
/// for the application in front, as long as the screen is on and there is
/// such an application.
pub open spec fn update_view(manager: ManagerView, msg: AppMsgView) -> (ManagerView, Routed) {
    match msg {
        AppMsgView::Backend(DomainEventView::ModeChange(mode)) => (
            ManagerView { active_id: mode_screen_view(mode), ..manager },
            Routed::Render,
        ),
        AppMsgView::Backend(DomainEventView::Sleep) => (
            ManagerView { is_awake: false, ..manager },
            Routed::Dropped,
        ),
        AppMsgView::Backend(DomainEventView::WakeUp) => (
            ManagerView { is_awake: true, ..manager },
            Routed::Dropped,
        ),
        _ => (
            manager,
            if manager.is_awake && manager.ids.contains(manager.active_id) {
                Routed::Forward
            } else {
                Routed::Dropped
            },
        ),
    }
}

/// The names in a list of applications.
pub open spec fn ids_of<A>(entries: Seq<(String, A)>) -> Seq<Seq<char>> {
    entries.map_values(|entry: (String, A)| entry.0@)
}

/// `app` is lent out of `before` from the first position of the name in
/// front, and `after` is `before` with whatever `app` has become put back
/// at that position.
pub open spec fn lends_front<A>(
    before: Seq<(String, A)>,
    front: Seq<char>,
    app: A,
    returned: A,
    after: Seq<(String, A)>,
) -> bool {
    exists|position: int|
        is_first_of(ids_of(before), front, position) && app == before[position].1 && after
            == before.update(position, (before[position].0, returned))
}

/// The first position at which `id` stands in `ids`.
pub open spec fn is_first_of(ids: Seq<Seq<char>>, id: Seq<char>, position: int) -> bool {
    &&& 0 <= position < ids.len()
    &&& ids[position] == id
    &&& forall|earlier: int| 0 <= earlier < position ==> ids[earlier] != id
}

impl<A> View for AppManager<A> {
    type V = ManagerView;

    open spec fn view(&self) -> ManagerView {
        ManagerView {
            ids: ids_of(self.entries()),
            active_id: self.active_id(),
            is_awake: self.is_awake(),
        }
    }
}

impl<A> AppManager<A> {
    /// The applications with their names, in the order given at
    /// construction.
    pub closed spec fn entries(&self) -> Seq<(String, A)> {
        self.apps@
    }

    /// The name of the application in front.
    pub closed spec fn active_id(&self) -> Seq<char> {
        self.active_id@
    }

    /// Whether the screen is on.
    pub closed spec fn is_awake(&self) -> bool {
        self.is_awake
    }

    /// The applications, in the order given at construction.
    pub open spec fn apps(&self) -> Seq<A> {
        self.entries().map_values(|entry: (String, A)| entry.1)
    }

    /// A switcher over `apps` with `active_id` in front and the screen on.
    pub fn new(apps: Vec<(String, A)>, active_id: String) -> (manager: Self)
        ensures
            manager.entries() == apps@,
            manager@.active_id == active_id@,
            manager@.is_awake,
    {
        AppManager { apps, active_id, is_awake: true }
    }

    /// The position of the first application of that name.
    fn find(&self, app: &str) -> (found: Option<usize>)
        ensures
            found is None <==> !self@.ids.contains(app@),
            found matches Some(position) ==> is_first_of(self@.ids, app@, position as int),
    {
        let mut i: usize = 0;
        while i < self.apps.len()
            invariant
                i <= self.apps.len(),
                forall|j: int| 0 <= j < i ==> self@.ids[j] != app@,
            decreases self.apps.len() - i,
        {
            if same_text(self.apps[i].0.as_str(), app) {
                assert(self@.ids[i as int] == app@);
                return Some(i);
            }
            i += 1;
        }
        None
    }

    /// The application to paint: the one in front, unless the screen is off
    /// or no application has that name.
    pub fn render(&self) -> (shown: Option<&A>)
        ensures
            shown is Some <==> self@.is_awake && self@.ids.contains(self@.active_id),
            shown matches Some(app) ==> exists|position: int|
                is_first_of(self@.ids, self@.active_id, position) && *app == self.apps()[position],
    {
        if !self.is_awake {
            return None;
        }
        match self.find(self.active_id.as_str()) {
            Some(position) => {
                let app = &self.apps[position].1;
                assert(is_first_of(self@.ids, self@.active_id, position as int) && *app
                    == self.apps()[position as int]);
                Some(app)
            },
            None => None,
        }
    }

    /// The application in front, to hand a forwarded message to: the one
    /// that `render` shows, whether or not the screen is on. Whatever the
    /// caller does to it, the names, the front and the screen stay.
    pub fn active_app_mut(&mut self) -> (front: Option<&mut A>)
        ensures
            front is Some <==> old(self)@.ids.contains(old(self)@.active_id),
            front is None ==> *final(self) == *old(self),
            front matches Some(app) ==> lends_front(
                old(self).entries(),
                old(self)@.active_id,
                *app,
                *final(app),
                final(self).entries(),
            ),
            final(self)@ == old(self)@,
    {
        match self.find(self.active_id.as_str()) {
            Some(position) => {
                assert(is_first_of(old(self)@.ids, old(self)@.active_id, position as int));
                assert forall|app: A|
                    #[trigger] ids_of(
                        self.apps@.update(position as int, (self.apps@[position as int].0, app)),
                    ) == ids_of(self.apps@) by {
                    assert(ids_of(
                        self.apps@.update(position as int, (self.apps@[position as int].0, app)),
                    ) =~= ids_of(self.apps@));
                }
                Some(&mut self.apps[position].1)
            },
            None => None,
        }
    }

    /// Takes a message. The switcher handles changes of mode, sleep and
    /// wake-up itself; any other message is for the application in front.
    pub fn update(&mut self, msg: &AppMsg) -> (routed: Routed)
        ensures
            (final(self)@, routed) == update_view(old(self)@, msg@),
            final(self).entries() == old(self).entries(),
    {
        match msg {
            AppMsg::Backend(DomainEvent::ModeChange(mode)) => {
                self.active_id = String::from_str(Self::mode_screen(mode));
                Routed::Render
            },
            AppMsg::Backend(DomainEvent::Sleep) => {
                self.is_awake = false;
                Routed::Dropped
            },
            AppMsg::Backend(DomainEvent::WakeUp) => {
                self.is_awake = true;
                Routed::Dropped
            },
            _ => {
                if !self.is_awake {
                    return Routed::Dropped;
                }
                match self.find(self.active_id.as_str()) {
                    Some(_) => Routed::Forward,
                    None => Routed::Dropped,
                }
            },
        }
    }

    /// Tells whether an application of that name is known.
    pub fn has_app(&self, app: &str) -> (known: bool)
        ensures
            known == self@.ids.contains(app@),
    {
        self.find(app).is_some()
    }

    /// Brings the application of that name to the front, if there is one,
    /// and tells whether there was.
    pub fn set_active(&mut self, app: &str) -> (activated: bool)
        ensures
            activated == old(self)@.ids.contains(app@),
            final(self)@ == (ManagerView {
                active_id: if activated {
                    app@
                } else {
                    old(self)@.active_id
                },
                ..old(self)@
            }),
            final(self).entries() == old(self).entries(),
    {
        if self.has_app(app) {
            self.active_id = String::from_str(app);
            true
        } else {
            false
        }
    }

    /// The name of the screen that belongs to a mode.
    pub fn mode_screen(mode: &Mode) -> (screen: &'static str)
        ensures
            screen@ == mode_screen_view(*mode),
    {
        match mode {
            Mode::PassThrough => "charonsay",
            Mode::InApp => "menu",
        }
    }
}

} // verus!
