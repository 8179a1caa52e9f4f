//! Key events of the terminal, as crossterm reports them, brought to the keys
//! the state machine understands.

use vstd::prelude::*;

use crate::app::{text_view, App, Key};
use crossterm::event::{KeyCode, KeyEvent, KeyEventKind};

verus! {

/// crossterm's record of one key event. Nothing of its inside is known here.
#[verifier::external_type_specification]
#[verifier::external_body]
pub struct ExKeyEvent(crossterm::event::KeyEvent);

/// What happened to a key: it went down, was held, or came up.
#[derive(Debug, PartialEq, Eq, Structural, Clone, Copy)]
pub enum KeyMotion {
    Press,
    Repeat,
    Release,
}

/// The key that a crossterm key event names in its `code` field: a printable
/// character, Backspace, Enter, Esc, Up and Down as the variant of that name,
/// every other code as `Key::Other`.
pub uninterp spec fn key_of(key_event: KeyEvent) -> Key;

/// The motion that a crossterm key event reports in its `kind` field.
pub uninterp spec fn motion_of(key_event: KeyEvent) -> KeyMotion;

/// Reads the `code` field of a crossterm key event. The contract gives the
/// result its name and claims nothing more of it; the body shows which code
/// becomes which key.
#[verifier::external_body]
fn pressed_key(key_event: &KeyEvent) -> (key: Key)
    ensures
        key == key_of(*key_event),
{
    match key_event.code {
        KeyCode::Char(c) => Key::Char(c),
        KeyCode::Backspace => Key::Backspace,
        KeyCode::Enter => Key::Enter,
        KeyCode::Esc => Key::Esc,
        KeyCode::Up => Key::Up,
        KeyCode::Down => Key::Down,
        _ => Key::Other,
    }
}

/// Reads the `kind` field of a crossterm key event, variant for variant. The
/// contract gives the result its name and claims nothing more of it.
#[verifier::external_body]
fn key_motion(key_event: &KeyEvent) -> (motion: KeyMotion)
    ensures
        motion == motion_of(*key_event),
{
    match key_event.kind {
        KeyEventKind::Press => KeyMotion::Press,
        KeyEventKind::Repeat => KeyMotion::Repeat,
        KeyEventKind::Release => KeyMotion::Release,
    }
}

impl App {
    /// Takes the key of one key event of the terminal, whatever its motion:
    /// the key that the event names is handled as `handle_key` says.
    pub fn handle_key_event(&mut self, key_event: KeyEvent) -> (request: Option<String>)
        ensures
            final(self)@ == old(self)@.after_key(key_of(key_event)),
            text_view(request) == old(self)@.request_of(key_of(key_event)),
            old(self)@.wf() ==> final(self)@.wf(),
    {
        let key = pressed_key(&key_event);
        self.handle_key(key)
    }

    /// Takes one key event as the terminal reports it. Only a press counts:
    /// its key is handled as `handle_key_event` says, while a held or released
    /// key changes nothing and asks for nothing.
    pub fn handle_press(&mut self, key_event: KeyEvent) -> (request: Option<String>)
        ensures
            motion_of(key_event) == KeyMotion::Press ==> {
                &&& final(self)@ == old(self)@.after_key(key_of(key_event))
                &&& text_view(request) == old(self)@.request_of(key_of(key_event))
            },
            motion_of(key_event) != KeyMotion::Press ==> {
                &&& final(self)@ == old(self)@
                &&& request is None
            },
            old(self)@.wf() ==> final(self)@.wf(),
    {
        match key_motion(&key_event) {
            KeyMotion::Press => self.handle_key_event(key_event),
            _ => None,
        }
    }
}

} // verus!
