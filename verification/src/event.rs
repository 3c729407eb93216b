//! Events of the dashboard's loop, and the listener that forwards key presses.

use vstd::prelude::*;

verus! {

/// Milliseconds between two ticks.
pub const TICK_INTERVAL_MS: u64 = 500;

/// A decoded key press.
#[derive(Clone, Copy, Debug, PartialEq, Eq, Structural)]
pub enum Key {
    Backspace,
    Left,
    Right,
    Up,
    Down,
    Home,
    End,
    PageUp,
    PageDown,
    BackTab,
    Delete,
    Insert,
    /// A function key, by its number.
    F(u8),
    Char(char),
    Alt(char),
    Ctrl(char),
    Null,
    Esc,
}

impl Key {
    /// The key that ends the dashboard.
    pub open spec fn quit() -> Key {
        Key::Char('q')
    }

    /// Whether this is the key that ends the dashboard.
    pub open spec fn spec_is_quit(self) -> bool {
        self == Key::quit()
    }

    /// Whether this is the key that ends the dashboard.
    #[verifier::when_used_as_spec(spec_is_quit)]
    pub fn is_quit(self) -> (quit: bool)
        ensures
            quit == self.spec_is_quit(),
    {
        match self {
            Key::Char(c) => c == 'q',
            _ => false,
        }
    }
}

/// What the event loop consumes: a key press or a tick of the timer.
#[derive(Clone, Copy, Debug, PartialEq, Eq, Structural)]
pub enum Event {
    Input(Key),
    Tick,
}

impl Event {
    /// Whether this is a press of the quit key.
    pub open spec fn spec_is_quit(self) -> bool {
        self == Event::Input(Key::quit())
    }

    /// Whether this is a press of the quit key.
    #[verifier::when_used_as_spec(spec_is_quit)]
    pub fn is_quit(self) -> (quit: bool)
        ensures
            quit == self.spec_is_quit(),
    {
        match self {
            Event::Input(key) => key.is_quit(),
            Event::Tick => false,
        }
    }
}

/// Forwards key presses to the event loop until the quit key has been
/// forwarded.
#[derive(Debug)]
pub struct InputListener {
    listening: bool,
}

impl InputListener {
    /// Whether the listener still reads input.
    pub closed spec fn spec_is_listening(&self) -> bool {
        self.listening
    }

    /// A listener that reads input.
    pub fn new() -> (listener: InputListener)
        ensures
            listener.is_listening(),
    {
        InputListener { listening: true }
    }

    /// Whether the listener still reads input.
    #[verifier::when_used_as_spec(spec_is_listening)]
    pub fn is_listening(&self) -> (listening: bool)
        ensures
            listening == self.spec_is_listening(),
    {
        self.listening
    }

    /// Takes the next key press. While listening, the key is forwarded as an
    /// input event, and the quit key ends the listening once forwarded.
    /// Afterwards nothing is forwarded.
    pub fn on_key(&mut self, key: Key) -> (forwarded: Option<Event>)
        ensures
            old(self).is_listening() ==> forwarded == Some(Event::Input(key)),
            !old(self).is_listening() ==> forwarded is None,
            final(self).is_listening() == (old(self).is_listening() && !key.is_quit()),
    {
        if self.listening {
            if key.is_quit() {
                self.listening = false;
            }
            Some(Event::Input(key))
        } else {
            None
        }
    }
}

} // verus!
