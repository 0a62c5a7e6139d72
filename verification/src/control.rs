//! What the commands of the tray menu do to the relay.

use vstd::prelude::*;
use crate::text::text_eq;

verus! {

/// Menu identifier of the command that starts the relay.
pub const MENU_ITEM_START_ID: &'static str = "start_server";

/// Menu identifier of the command that stops the relay.
pub const MENU_ITEM_STOP_ID: &'static str = "stop_server";

/// Menu identifier of the command that reloads the MIDI mappings.
pub const MENU_ITEM_RELOAD_MIDI_ID: &'static str = "reload_midi_mappings";

/// Menu identifier of the command that ends the program.
pub const MENU_ITEM_QUIT_ID: &'static str = "quit_app";

/// A command from the tray menu.
#[derive(Clone, Copy, Debug, PartialEq, Eq, Structural)]
pub enum Command {
    Start,
    Stop,
    ReloadMappings,
    Quit,
    /// A menu identifier that stands for no command.
    Unknown,
}

/// What to do about a command.
#[derive(Clone, Copy, Debug, PartialEq, Eq, Structural)]
pub enum Step {
    /// Start the relay; it was not running.
    StartServer,
    /// Nothing: the relay is running already.
    AlreadyRunning,
    /// Stop the relay; it was running.
    StopServer,
    /// Nothing: the relay is not running.
    NotRunning,
    /// Load the mapping file again and swap the table.
    ReloadMappings,
    /// Remember to end the program at the next turn of the event loop.
    RequestQuit,
    /// Nothing: the command is not known.
    Unhandled,
}

/// The state that the commands act on.
#[derive(Clone, Copy, Debug, PartialEq, Eq, Structural)]
pub struct Control {
    /// Whether the relay is running.
    pub running: bool,
    /// Whether the program was asked to end.
    pub quitting: bool,
}

/// The command that a menu identifier stands for.
pub open spec fn command_named(id: Seq<char>) -> Command {
    if id == MENU_ITEM_START_ID@ {
        Command::Start
    } else if id == MENU_ITEM_STOP_ID@ {
        Command::Stop
    } else if id == MENU_ITEM_RELOAD_MIDI_ID@ {
        Command::ReloadMappings
    } else if id == MENU_ITEM_QUIT_ID@ {
        Command::Quit
    } else {
        Command::Unknown
    }
}

/// What a command calls for in a state.
pub open spec fn step_for(state: Control, command: Command) -> Step {
    match command {
        Command::Start => if state.running {
            Step::AlreadyRunning
        } else {
            Step::StartServer
        },
        Command::Stop => if state.running {
            Step::StopServer
        } else {
            Step::NotRunning
        },
        Command::ReloadMappings => Step::ReloadMappings,
        Command::Quit => Step::RequestQuit,
        Command::Unknown => Step::Unhandled,
    }
}

/// The state after a command.
pub open spec fn state_after(state: Control, command: Command) -> Control {
    match command {
        Command::Start => Control { running: true, quitting: state.quitting },
        Command::Stop => Control { running: false, quitting: state.quitting },
        Command::Quit => Control { running: state.running, quitting: true },
        _ => state,
    }
}

impl Command {
    /// Reads a command from a menu identifier.
    pub fn from_menu_id(id: &str) -> (command: Command)
        ensures
            command == command_named(id@),
    {
        if text_eq(id, MENU_ITEM_START_ID) {
            Command::Start
        } else if text_eq(id, MENU_ITEM_STOP_ID) {
            Command::Stop
        } else if text_eq(id, MENU_ITEM_RELOAD_MIDI_ID) {
            Command::ReloadMappings
        } else if text_eq(id, MENU_ITEM_QUIT_ID) {
            Command::Quit
        } else {
            Command::Unknown
        }
    }
}

impl Control {
    /// The state at the start of the program: the relay is not running.
    pub fn new() -> (state: Control)
        ensures
            state == (Control { running: false, quitting: false }),
    {
        Control { running: false, quitting: false }
    }

    /// Takes a command: changes the state and says what to do.
    pub fn on_command(&mut self, command: Command) -> (step: Step)
        ensures
            step == step_for(*old(self), command),
            *final(self) == state_after(*old(self), command),
    {
        match command {
            Command::Start => {
                if self.running {
                    Step::AlreadyRunning
                } else {
                    self.running = true;
                    Step::StartServer
                }
            },
            Command::Stop => {
                if self.running {
                    self.running = false;
                    Step::StopServer
                } else {
                    Step::NotRunning
                }
            },
            Command::ReloadMappings => Step::ReloadMappings,
            Command::Quit => {
                self.quitting = true;
                Step::RequestQuit
            },
            Command::Unknown => Step::Unhandled,
        }
    }

    /// Called at each turn of the event loop, before any command is
    /// looked at: where the program was asked to end, says so and whether
    /// the relay has to be stopped first. Afterwards the relay does not
    /// count as running.
    pub fn on_turn(&mut self) -> (exit: Option<bool>)
        ensures
            exit == (if old(self).quitting {
                Some(old(self).running)
            } else {
                None
            }),
            final(self).quitting == old(self).quitting,
            final(self).running == (old(self).running && !old(self).quitting),
    {
        if self.quitting {
            let stop_first = self.running;
            self.running = false;
            Some(stop_first)
        } else {
            None
        }
    }
}

} // verus!
