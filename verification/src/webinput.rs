//! Which window events the panel hears of in the browser, and which of them it
//! keeps from the camera.
//!
//! There is no text field anywhere in the panel, so all that it needs is pointer
//! movement, clicks and the wheel. Keys are handled before the panel ever sees
//! them.
use crate::controls::{Button, Event};
use vstd::prelude::*;

verus! {

/// A button of the pointer, as the panel knows it.
#[derive(Debug, Clone, Copy, PartialEq, Eq, Structural)]
pub enum Pointer {
    Primary,
    Secondary,
    Middle,
}

/// What the panel is told.
#[derive(Debug, Clone, Copy, PartialEq, Eq, Structural)]
pub enum Told {
    Nothing,
    Moved,
    Gone,
    Pressed(Pointer, bool),
    Wheel,
    Modifiers,
}

/// The button that the panel takes a mouse button for.
pub open spec fn pointer_of(button: Button) -> Option<Pointer> {
    match button {
        Button::Left => Some(Pointer::Primary),
        Button::Right => Some(Pointer::Secondary),
        Button::Middle => Some(Pointer::Middle),
        Button::Other => None,
    }
}

/// The button that the panel takes a mouse button for.
#[must_use]
pub fn translate_button(button: Button) -> (r: Option<Pointer>)
    ensures
        r == pointer_of(button),
{
    match button {
        Button::Left => Some(Pointer::Primary),
        Button::Right => Some(Pointer::Secondary),
        Button::Middle => Some(Pointer::Middle),
        Button::Other => None,
    }
}

/// What the panel is told of an event.
pub open spec fn told(event: Event) -> Told {
    match event {
        Event::CursorMoved => Told::Moved,
        Event::CursorLeft => Told::Gone,
        Event::MouseInput { button, pressed } => match pointer_of(button) {
            Some(pointer) => Told::Pressed(pointer, pressed),
            None => Told::Nothing,
        },
        Event::MouseWheel => Told::Wheel,
        Event::ModifiersChanged => Told::Modifiers,
        _ => Told::Nothing,
    }
}

/// Whether the panel claims an event: only what the pointer does, and only if it
/// wanted the pointer in the last frame.
pub open spec fn claims(event: Event, wants_pointer: bool) -> bool {
    wants_pointer && match told(event) {
        Told::Moved => true,
        Told::Pressed(_, _) => true,
        Told::Wheel => true,
        _ => false,
    }
}

/// What to tell the panel of an event, and whether the panel claims it.
#[must_use]
pub fn tell(event: Event, wants_pointer: bool) -> (r: (Told, bool))
    ensures
        r.0 == told(event),
        r.1 == claims(event, wants_pointer),
{
    match event {
        Event::CursorMoved => (Told::Moved, wants_pointer),
        Event::CursorLeft => (Told::Gone, false),
        Event::MouseInput { button, pressed } => match translate_button(button) {
            Some(pointer) => (Told::Pressed(pointer, pressed), wants_pointer),
            None => (Told::Nothing, false),
        },
        Event::MouseWheel => (Told::Wheel, wants_pointer),
        Event::ModifiersChanged => (Told::Modifiers, false),
        _ => (Told::Nothing, false),
    }
}

/// The panel never claims a key, so keys always reach the camera.
pub proof fn law_keys_always_reach_the_camera(event: Event, wants_pointer: bool)
    requires
        event is KeyboardInput,
    ensures
        !claims(event, wants_pointer),
{
}

/// The panel hears of what the pointer does and of modifiers, button by button,
/// and of nothing else.
pub proof fn law_what_the_panel_hears(event: Event)
    ensures
        event is CursorMoved <==> told(event) == Told::Moved,
        event is CursorLeft <==> told(event) == Told::Gone,
        event is MouseWheel <==> told(event) == Told::Wheel,
        event is ModifiersChanged <==> told(event) == Told::Modifiers,
        forall|down: bool|
            told(event) == Told::Pressed(Pointer::Primary, down) <==> event == (Event::MouseInput {
                button: Button::Left,
                pressed: down,
            }),
        forall|down: bool|
            told(event) == Told::Pressed(Pointer::Secondary, down) <==> event == (Event::MouseInput {
                button: Button::Right,
                pressed: down,
            }),
        forall|down: bool|
            told(event) == Told::Pressed(Pointer::Middle, down) <==> event == (Event::MouseInput {
                button: Button::Middle,
                pressed: down,
            }),
{
}

/// The panel keeps from the camera what moves, presses or scrolls, while it wants
/// the pointer, and nothing while it does not.
pub proof fn law_what_the_panel_keeps(event: Event, wants_pointer: bool)
    ensures
        claims(event, wants_pointer) <==> wants_pointer && (event is CursorMoved || event is MouseWheel || (
        event matches Event::MouseInput { button, .. } && button != Button::Other)),
{
}

} // verus!
