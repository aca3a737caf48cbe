//! Domain events and the bus that fans them out to registered
//! listeners.

use vstd::prelude::*;
use crate::models::HistoryEntry;
use crate::models::Profile;

verus! {

/// Significant occurrences in the system.
pub enum Event {
    /// A profile was created.
    ProfileCreated(Profile),
    /// A profile was updated.
    ProfileUpdated(Profile),
    /// A profile was removed.
    ProfileRemoved(String),
    /// A connection was established.
    ConnectionStarted(Profile),
    /// A connection has ended.
    ConnectionEnded(HistoryEntry),
    /// A plugin was enabled.
    PluginEnabled(String),
    /// A plugin was disabled.
    PluginDisabled(String),
}

/// Implemented by components that react to events. The bus assumes
/// nothing of the implementations.
pub trait EventListener {
    /// React to one event.
    fn on_event(&self, event: &Event);
}

/// Fans each published event out to every registered listener, in
/// registration order.
pub struct EventBus<L> {
    listeners: Vec<L>,
}

impl<L> EventBus<L> {
    /// How many listeners are registered.
    pub closed spec fn spec_len(&self) -> nat {
        self.listeners@.len()
    }

    /// An empty bus.
    pub fn new() -> (r: Self)
        ensures
            r.spec_len() == 0,
    {
        EventBus { listeners: Vec::new() }
    }

    /// Register a new listener.
    pub fn register(&mut self, listener: L)
        ensures
            final (self).spec_len() == old(self).spec_len() + 1,
    {
        self.listeners.push(listener);
    }
}

impl<L: EventListener> EventBus<L> {
    /// Publish an event to every registered listener.
    pub fn publish(&self, event: &Event) {
        let mut i: usize = 0;
        while i < self.listeners.len()
            invariant
                i <= self.listeners@.len(),
            decreases self.listeners@.len() - i,
        {
            self.listeners[i].on_event(event);
            i += 1;
        }
    }
}

} // verus!
