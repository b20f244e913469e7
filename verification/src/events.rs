//! The events of the host, and what copy mode does about them.
use vstd::prelude::*;
use vstd::string::*;

use crate::command::{commands_view, Command, CommandView};
use crate::keys::{exit_commands, BareKey, KeyWithModifier};
use crate::panes::{tabs_view, Tab, TabView};
use crate::state::{State, StateView};

verus! {

/// An event of the host.
pub enum Event {
    PermissionGranted,
    PermissionDenied,
    /// The panes of the session, tab by tab.
    PaneUpdate(Vec<Tab>),
    /// An action that was asked for is done.
    ActionComplete,
    /// The polling delay is over.
    Timer,
    Key(KeyWithModifier),
    /// Anything that copy mode has no use for.
    Other,
}

/// The model of an `Event`.
pub enum EventView {
    PermissionGranted,
    PermissionDenied,
    PaneUpdate(Seq<TabView>),
    ActionComplete,
    Timer,
    Key(KeyWithModifier),
    Other,
}

impl View for Event {
    type V = EventView;

    open spec fn view(&self) -> EventView {
        match *self {
            Event::PermissionGranted => EventView::PermissionGranted,
            Event::PermissionDenied => EventView::PermissionDenied,
            Event::PaneUpdate(tabs) => EventView::PaneUpdate(tabs_view(tabs@)),
            Event::ActionComplete => EventView::ActionComplete,
            Event::Timer => EventView::Timer,
            Event::Key(key) => EventView::Key(key),
            Event::Other => EventView::Other,
        }
    }
}

/// Whether an event calls for a new paint, once the commands it led to are done.
#[derive(Clone, Copy, Debug, PartialEq, Eq, Structural)]
pub enum Redraw {
    Yes,
    No,
    /// Only while there is no scrollback to show.
    UnlessLoaded,
}

/// What an event leads to: the state, whether to paint, and what is asked of the host.
pub struct EventEffect {
    pub state: StateView,
    pub redraw: Redraw,
    pub commands: Seq<CommandView>,
}

impl StateView {
    /// The state after copy mode has been entered, where it can be.
    pub open spec fn maybe_entered(self) -> StateView {
        if self.may_enter() {
            self.entering()
        } else {
            self
        }
    }

    /// What is asked of the host when copy mode is entered, where it can be.
    pub open spec fn maybe_enter_commands(self) -> Seq<CommandView> {
        if self.may_enter() {
            self.enter_commands()
        } else {
            seq![]
        }
    }

    /// Whether a paint is due, once the commands are done.
    pub open spec fn paints(self, redraw: Redraw) -> bool {
        match redraw {
            Redraw::Yes => true,
            Redraw::No => false,
            Redraw::UnlessLoaded => !self.loaded,
        }
    }

    /// Whether the colored dump is still being waited for.
    pub open spec fn awaits_dump(self) -> bool {
        self.entered && !self.colored
    }

    /// What an event leads to.
    pub open spec fn update(self, event: EventView) -> EventEffect {
        match event {
            EventView::PermissionGranted => {
                let granted = StateView { permissions_granted: true, ..self };
                EventEffect {
                    state: granted.maybe_entered(),
                    redraw: Redraw::Yes,
                    commands: granted.maybe_enter_commands(),
                }
            },
            EventView::PermissionDenied => EventEffect {
                state: StateView { status: "permissions denied"@, ..self },
                redraw: Redraw::Yes,
                commands: seq![],
            },
            EventView::PaneUpdate(tabs) => {
                let seen = self.panes_seen(tabs);
                EventEffect {
                    state: seen.maybe_entered(),
                    redraw: Redraw::UnlessLoaded,
                    commands: self.noted_commands(self.own_candidates(tabs))
                        + seen.maybe_enter_commands(),
                }
            },
            EventView::ActionComplete | EventView::Timer => if self.awaits_dump() {
                EventEffect {
                    state: self.polled(),
                    redraw: Redraw::Yes,
                    commands: self.poll_commands(),
                }
            } else {
                EventEffect { state: self, redraw: Redraw::No, commands: seq![] }
            },
            EventView::Key(key) => if self.loaded {
                let effect = self.handle_key(key);
                EventEffect {
                    state: effect.state,
                    redraw: if effect.handled {
                        Redraw::Yes
                    } else {
                        Redraw::No
                    },
                    commands: effect.commands,
                }
            } else {
                EventEffect {
                    state: self,
                    redraw: Redraw::No,
                    commands: if key.bare_key == BareKey::Char('q') || key.bare_key
                        == BareKey::Esc {
                        exit_commands()
                    } else {
                        seq![]
                    },
                }
            },
            EventView::Other => EventEffect { state: self, redraw: Redraw::No, commands: seq![] },
        }
    }
}

/// What an event came to: whether to paint, and what is asked of the host.
pub struct Outcome {
    pub redraw: Redraw,
    pub commands: Vec<Command>,
}

impl State {
    /// Whether to paint now that the commands are done.
    pub fn redraws(&self, redraw: Redraw) -> (r: bool)
        ensures
            r == match redraw {
                Redraw::Yes => true,
                Redraw::No => false,
                Redraw::UnlessLoaded => !self@.loaded,
            },
            r == self@.paints(redraw),
    {
        match redraw {
            Redraw::Yes => true,
            Redraw::No => false,
            Redraw::UnlessLoaded => !self.loaded,
        }
    }

    /// Carries out an event. It never takes the cursor out of the grid.
    pub fn update(&mut self, event: Event) -> (r: Outcome)
        ensures
            final(self)@ == old(self)@.update(event@).state,
            r.redraw == old(self)@.update(event@).redraw,
            commands_view(r.commands@) == old(self)@.update(event@).commands,
            old(self)@.cursor_in_grid() ==> final(self)@.cursor_in_grid(),
    {
        let mut commands: Vec<Command> = Vec::new();
        assert(commands_view(commands@) =~= seq![]);
        let mut redraw: Redraw = Redraw::No;
        match event {
            Event::PermissionGranted => {
                self.permissions_granted = true;
                commands = self.maybe_enter();
                redraw = Redraw::Yes;
            },
            Event::PermissionDenied => {
                self.status = "permissions denied".to_owned();
                redraw = Redraw::Yes;
            },
            Event::PaneUpdate(tabs) => {
                commands = self.see_panes(&tabs);
                let ghost first = commands_view(commands@);
                let mut more = self.maybe_enter();
                let ghost second = commands_view(more@);
                commands.append(&mut more);
                assert(commands_view(commands@) =~= first + second);
                redraw = Redraw::UnlessLoaded;
            },
            Event::ActionComplete | Event::Timer => {
                if self.entered && !self.colored {
                    commands = self.poll_dump();
                    redraw = Redraw::Yes;
                }
            },
            Event::Key(key) => {
                if self.loaded {
                    let reply = self.handle_key(key);
                    commands = reply.commands;
                    if reply.handled {
                        redraw = Redraw::Yes;
                    }
                } else {
                    match key.bare_key {
                        BareKey::Char('q') | BareKey::Esc => {
                            commands = self.exit();
                        },
                        _ => {},
                    }
                }
            },
            Event::Other => {},
        }
        Outcome { redraw, commands }
    }
}

} // verus!
