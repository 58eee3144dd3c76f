//! The part of the interface loop that decides about the mouse cursor.

use vstd::prelude::*;

verus! {

/// The icon of the mouse cursor.
#[derive(Clone, Copy, Debug, PartialEq, Eq, Structural)]
pub enum CursorIcon {
    Default,
    Help,
    Pointer,
    Wait,
    Crosshair,
    Text,
    Move,
    NotAllowed,
    EWResize,
    NSResize,
    NESWResize,
    NWSEResize,
}

/// What the interface remembers from one frame to the next.
#[derive(Clone, Copy, Debug, PartialEq, Eq, Structural)]
pub struct Interface {
    /// Whether the interface has set the cursor and not yet given it back.
    pub interacted: bool,
}

impl Interface {
    /// The icon to set after a frame, if any. `wanted` is the icon that
    /// the widgets ask for, `None` when they ask for none: then the default
    /// icon is set once, to give back a cursor that the interface had set.
    pub open spec fn spec_cursor(self, wanted: Option<CursorIcon>) -> Option<CursorIcon> {
        match wanted {
            Some(icon) => Some(icon),
            None => if self.interacted {
                Some(CursorIcon::Default)
            } else {
                None
            },
        }
    }

    /// An interface that has not set the cursor.
    pub fn new() -> (interface: Interface)
        ensures
            interface == (Interface { interacted: false }),
    {
        Interface { interacted: false }
    }

    /// Decides about the cursor after a frame: the icon to set, if any.
    pub fn cursor(&mut self, wanted: Option<CursorIcon>) -> (icon: Option<CursorIcon>)
        ensures
            icon == old(self).spec_cursor(wanted),
            final(self).interacted == wanted.is_some(),
    {
        match wanted {
            Some(icon) => {
                self.interacted = true;
                Some(icon)
            },
            None => {
                if self.interacted {
                    self.interacted = false;
                    Some(CursorIcon::Default)
                } else {
                    None
                }
            },
        }
    }
}

} // verus!
