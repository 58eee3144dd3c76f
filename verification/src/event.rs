//! What the windowing layer reports, turned into the events that the
//! interface consumes.

use vstd::prelude::*;
use crate::convert::key_location;
use crate::convert::key_meaning;
use crate::convert::spec_key_mod;
use crate::convert::spec_mouse_button;
use crate::convert::spec_touch;
use crate::convert::Button;
use crate::convert::Key;
use crate::convert::KeyCode;
use crate::convert::KeyMods;
use crate::convert::Location;
use crate::convert::Modifiers;
use crate::convert::MouseButton;
use crate::convert::TouchEvent;
use crate::convert::TouchPhase;
use crate::geometry::Point;
use crate::geometry::Size;

verus! {

/// One report of the windowing layer.
#[derive(Clone, Copy, Debug, PartialEq, Eq, Structural)]
pub enum Input {
    Update,
    Draw,
    Resize { size: Size },
    MouseMotion { position: Point },
    MouseWheel { x: i32, y: i32 },
    MouseButtonDown { button: MouseButton },
    MouseButtonUp { button: MouseButton },
    Char { character: char },
    KeyDown { keycode: KeyCode, keymods: KeyMods },
    KeyUp { keycode: KeyCode, keymods: KeyMods },
    Touch { phase: TouchPhase, id: u64, position: Point },
    RawMouseMotion { dx: i32, dy: i32 },
    WindowMinimized,
    WindowRestored,
    QuitRequested,
    FilesDropped,
}

/// One event for the interface.
#[derive(Clone, Copy, Debug, PartialEq, Eq, Structural)]
pub enum Event {
    Resized { size: Size },
    Closed,
    CloseRequested,
    CursorMoved { position: Point },
    WheelScrolled { x: i32, y: i32 },
    ButtonPressed { button: Button },
    ButtonReleased { button: Button },
    KeyPressed { key: Key, location: Location, modifiers: Modifiers },
    KeyReleased { key: Key, location: Location, modifiers: Modifiers },
    Touch { event: TouchEvent },
}

/// The event that a report stands for, if it stands for one. Characters,
/// raw motion, restoring and dropped files are not passed on, nor is a
/// press or release of a button that the interface does not know; a
/// minimized window counts as closed.
pub open spec fn event_of(input: Input) -> Option<Event> {
    match input {
        Input::Resize { size } => Some(Event::Resized { size }),
        Input::MouseMotion { position } => Some(Event::CursorMoved { position }),
        Input::MouseWheel { x, y } => Some(Event::WheelScrolled { x, y }),
        Input::MouseButtonDown { button } => match spec_mouse_button(button) {
            Some(button) => Some(Event::ButtonPressed { button }),
            None => None,
        },
        Input::MouseButtonUp { button } => match spec_mouse_button(button) {
            Some(button) => Some(Event::ButtonReleased { button }),
            None => None,
        },
        Input::KeyDown { keycode, keymods } => Some(
            Event::KeyPressed {
                key: key_meaning(keycode),
                location: key_location(keycode),
                modifiers: spec_key_mod(keymods),
            },
        ),
        Input::KeyUp { keycode, keymods } => Some(
            Event::KeyReleased {
                key: key_meaning(keycode),
                location: key_location(keycode),
                modifiers: spec_key_mod(keymods),
            },
        ),
        Input::Touch { phase, id, position } => Some(Event::Touch { event: spec_touch(phase, id, position) }),
        Input::WindowMinimized => Some(Event::Closed),
        Input::QuitRequested => Some(Event::CloseRequested),
        _ => None,
    }
}

/// The event that a report stands for, if it stands for one.
pub fn translate(input: Input) -> (event: Option<Event>)
    ensures
        event == event_of(input),
{
    match input {
        Input::Resize { size } => Some(Event::Resized { size }),
        Input::MouseMotion { position } => Some(Event::CursorMoved { position }),
        Input::MouseWheel { x, y } => Some(Event::WheelScrolled { x, y }),
        Input::MouseButtonDown { button } => match crate::convert::mouse_button(button) {
            Some(button) => Some(Event::ButtonPressed { button }),
            None => None,
        },
        Input::MouseButtonUp { button } => match crate::convert::mouse_button(button) {
            Some(button) => Some(Event::ButtonReleased { button }),
            None => None,
        },
        Input::KeyDown { keycode, keymods } => {
            let (key, location) = crate::convert::key(keycode);
            Some(Event::KeyPressed { key, location, modifiers: crate::convert::key_mod(keymods) })
        },
        Input::KeyUp { keycode, keymods } => {
            let (key, location) = crate::convert::key(keycode);
            Some(Event::KeyReleased { key, location, modifiers: crate::convert::key_mod(keymods) })
        },
        Input::Touch { phase, id, position } => Some(
            Event::Touch { event: crate::convert::touch(phase, id, position) },
        ),
        Input::WindowMinimized => Some(Event::Closed),
        Input::QuitRequested => Some(Event::CloseRequested),
        _ => None,
    }
}

} // verus!
