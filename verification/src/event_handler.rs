//! Where the events of the windowing layer's reports go.

use vstd::prelude::*;
use crate::event::event_of;
use crate::event::translate;
use crate::event::Event;
use crate::event::Input;

verus! {

/// Something that takes events, one after the other.
pub trait EventProxy {
    /// The events taken so far, in order.
    spec fn received(&self) -> Seq<Event>;

    /// Takes an event.
    fn add(&mut self, event: Event)
        ensures
            final(self).received() == old(self).received().push(event),
    ;
}

impl EventProxy for Vec<Event> {
    open spec fn received(&self) -> Seq<Event> {
        self@
    }

    fn add(&mut self, event: Event) {
        self.push(event);
    }
}

/// Hands the events of the windowing layer's reports to a proxy.
pub struct EventProxyWrapper<T: EventProxy>(pub T);

impl<T: EventProxy> EventProxy for EventProxyWrapper<T> {
    open spec fn received(&self) -> Seq<Event> {
        self.0.received()
    }

    fn add(&mut self, event: Event) {
        self.0.add(event);
    }
}

impl<T: EventProxy> EventProxyWrapper<T> {
    /// Hands on the event that `input` stands for, if it stands for one.
    pub fn handle(&mut self, input: Input)
        ensures
            final(self).received() == (match event_of(input) {
                Some(event) => old(self).received().push(event),
                None => old(self).received(),
            }),
    {
        match translate(input) {
            Some(event) => {
                self.add(event);
            },
            None => {},
        }
    }
}

} // verus!
