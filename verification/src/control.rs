//! The control surface of the host.
//!
//! The host offers two preset commands. The operator moves the selection up
//! and down, sends the selected command with enter, and leaves with escape,
//! `q` or control-c.

use vstd::prelude::*;
use crate::message::Message;

verus! {

/// The number of preset commands.
pub const COMMAND_COUNT: usize = 2;

/// The duty value of the first preset.
pub const FIRST_PRESET: u16 = 5;

/// The duty value of the second preset.
pub const SECOND_PRESET: u16 = 10;

/// A key press, as far as the control surface tells keys apart.
#[derive(Debug, Clone, Copy, PartialEq, Eq, Structural)]
pub enum Key {
    /// Escape.
    Esc,
    /// A character key. `control` says that control, and no other modifier,
    /// was held.
    Char { character: char, control: bool },
    /// Arrow up.
    Up,
    /// Arrow down.
    Down,
    /// Enter.
    Enter,
    /// Any other key.
    Other,
}

/// What a key press leads to.
#[derive(Debug, Clone, Copy, PartialEq, Eq, Structural)]
pub enum KeyAction {
    /// Leave the application.
    Quit,
    /// Send this message to the microcontroller.
    Send(Message),
    /// Nothing to do beyond what happened to the selection.
    Nothing,
}

/// The message of the preset at `index`, if there is one.
pub open spec fn preset(index: nat) -> Option<Message> {
    if index == 0 {
        Some(Message::DutyCycle(FIRST_PRESET))
    } else if index == 1 {
        Some(Message::DutyCycle(SECOND_PRESET))
    } else {
        None
    }
}

/// Whether a key leaves the application.
pub open spec fn quits(key: Key) -> bool {
    match key {
        Key::Esc => true,
        Key::Char { character, control } => character == 'q' || (control && (character == 'c'
            || character == 'C')),
        _ => false,
    }
}

/// The list of commands with its selection.
#[derive(Debug, Clone, Copy, PartialEq, Eq, Structural)]
pub struct Menu {
    selected: usize,
}

impl View for Menu {
    type V = nat;

    closed spec fn view(&self) -> nat {
        self.selected as nat
    }
}

impl Menu {
    /// A menu with the first command selected.
    pub fn new() -> (menu: Menu)
        ensures
            menu@ == 0,
    {
        Menu { selected: 0 }
    }

    /// The index of the selected command.
    pub fn selected(&self) -> (index: usize)
        ensures
            index == self@,
    {
        self.selected
    }

    /// Handles one key press: moves the selection within the list, sends the
    /// selected preset, or leaves.
    pub fn handle_key_events(&mut self, key: Key) -> (action: KeyAction)
        ensures
            final(self)@ == match key {
                Key::Up => if old(self)@ > 0 {
                    (old(self)@ - 1) as nat
                } else {
                    0nat
                },
                Key::Down => if old(self)@ + 1 < COMMAND_COUNT {
                    old(self)@ + 1
                } else {
                    old(self)@
                },
                _ => old(self)@,
            },
            action == if quits(key) {
                KeyAction::Quit
            } else if key == Key::Enter && preset(old(self)@) is Some {
                KeyAction::Send(preset(old(self)@).unwrap())
            } else {
                KeyAction::Nothing
            },
    {
        match key {
            Key::Esc => KeyAction::Quit,
            Key::Char { character, control } => {
                if character == 'q' || (control && (character == 'c' || character == 'C')) {
                    KeyAction::Quit
                } else {
                    KeyAction::Nothing
                }
            },
            Key::Up => {
                if self.selected > 0 {
                    self.selected = self.selected - 1;
                }
                KeyAction::Nothing
            },
            Key::Down => {
                if self.selected < COMMAND_COUNT - 1 {
                    self.selected = self.selected + 1;
                }
                KeyAction::Nothing
            },
            Key::Enter => {
                if self.selected == 0 {
                    KeyAction::Send(Message::DutyCycle(FIRST_PRESET))
                } else if self.selected == 1 {
                    KeyAction::Send(Message::DutyCycle(SECOND_PRESET))
                } else {
                    KeyAction::Nothing
                }
            },
            Key::Other => KeyAction::Nothing,
        }
    }
}

} // verus!
