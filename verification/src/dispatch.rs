//! Registration of the three callbacks that the interrupt layer invokes.

use vstd::prelude::*;

verus! {

/// The table under construction: at most one handler per role.
pub struct HandlerTable<K, T, S> {
    keyboard: Option<K>,
    timer: Option<T>,
    startup: Option<S>,
}

/// A complete set of handlers, ready for the interrupt layer.
pub struct Handlers<K, T, S> {
    /// Invoked with every decoded key.
    pub keyboard: K,
    /// Invoked on every timer tick.
    pub timer: T,
    /// Invoked once before interrupts are unmasked.
    pub startup: S,
}

impl<K, T, S> HandlerTable<K, T, S> {
    /// The keyboard handler registered so far.
    pub closed spec fn keyboard_slot(&self) -> Option<K> {
        self.keyboard
    }

    /// The timer handler registered so far.
    pub closed spec fn timer_slot(&self) -> Option<T> {
        self.timer
    }

    /// The startup handler registered so far.
    pub closed spec fn startup_slot(&self) -> Option<S> {
        self.startup
    }

    /// Every role has its handler.
    pub open spec fn complete(&self) -> bool {
        self.keyboard_slot() is Some && self.timer_slot() is Some && self.startup_slot() is Some
    }

    /// A table without handlers.
    pub fn new() -> (table: Self)
        ensures
            table.keyboard_slot() is None,
            table.timer_slot() is None,
            table.startup_slot() is None,
    {
        HandlerTable { keyboard: None, timer: None, startup: None }
    }

    /// Registers the keyboard handler; the role must be free.
    pub fn keyboard(self, handler: K) -> (table: Self)
        requires
            self.keyboard_slot() is None,
        ensures
            table.keyboard_slot() == Some(handler),
            table.timer_slot() == self.timer_slot(),
            table.startup_slot() == self.startup_slot(),
    {
        HandlerTable { keyboard: Some(handler), timer: self.timer, startup: self.startup }
    }

    /// Registers the timer handler; the role must be free.
    pub fn timer(self, handler: T) -> (table: Self)
        requires
            self.timer_slot() is None,
        ensures
            table.keyboard_slot() == self.keyboard_slot(),
            table.timer_slot() == Some(handler),
            table.startup_slot() == self.startup_slot(),
    {
        HandlerTable { keyboard: self.keyboard, timer: Some(handler), startup: self.startup }
    }

    /// Registers the startup handler; the role must be free.
    pub fn startup(self, handler: S) -> (table: Self)
        requires
            self.startup_slot() is None,
        ensures
            table.keyboard_slot() == self.keyboard_slot(),
            table.timer_slot() == self.timer_slot(),
            table.startup_slot() == Some(handler),
    {
        HandlerTable { keyboard: self.keyboard, timer: self.timer, startup: Some(handler) }
    }

    /// Whether every role has its handler.
    pub fn is_complete(&self) -> (complete: bool)
        ensures
            complete == self.complete(),
    {
        self.keyboard.is_some() && self.timer.is_some() && self.startup.is_some()
    }

    /// Whether the keyboard role is taken.
    pub fn has_keyboard(&self) -> (taken: bool)
        ensures
            taken == self.keyboard_slot() is Some,
    {
        self.keyboard.is_some()
    }

    /// Whether the timer role is taken.
    pub fn has_timer(&self) -> (taken: bool)
        ensures
            taken == self.timer_slot() is Some,
    {
        self.timer.is_some()
    }

    /// Whether the startup role is taken.
    pub fn has_startup(&self) -> (taken: bool)
        ensures
            taken == self.startup_slot() is Some,
    {
        self.startup.is_some()
    }

    /// Closes the table and hands the handlers to the interrupt layer; every
    /// role must be filled.
    pub fn start(self) -> (handlers: Handlers<K, T, S>)
        requires
            self.complete(),
        ensures
            Some(handlers.keyboard) == self.keyboard_slot(),
            Some(handlers.timer) == self.timer_slot(),
            Some(handlers.startup) == self.startup_slot(),
    {
        Handlers {
            keyboard: self.keyboard.unwrap(),
            timer: self.timer.unwrap(),
            startup: self.startup.unwrap(),
        }
    }
}

} // verus!
