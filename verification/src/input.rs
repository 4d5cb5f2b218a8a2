//! The quit decision of window-event handling, over the library's own model
//! of the events it cares about. The windowing system's event types stay
//! with the caller, which translates into this model.

use vstd::prelude::*;

verus! {

/// The keys the viewer reacts to.
#[derive(Clone, Copy, Debug, PartialEq, Eq, Structural)]
pub enum Key {
    Q,
    Escape,
    Other,
}

/// A window event, reduced to what the quit decision reads.
#[derive(Clone, Copy, Debug, PartialEq, Eq, Structural)]
pub enum InputEvent {
    CloseRequested,
    Keyboard { key: Key, pressed: bool },
    Other,
}

/// When the session should end: on the close button, or on a press (not a
/// release) of Q or Escape.
pub open spec fn quit_requested(e: InputEvent) -> bool {
    match e {
        InputEvent::CloseRequested => true,
        InputEvent::Keyboard { key, pressed } => pressed && (key == Key::Q || key == Key::Escape),
        InputEvent::Other => false,
    }
}

/// Routes window events; the caller performs the actual shutdown when this
/// says so.
pub struct InputHandler;

impl InputHandler {
    /// Decide whether this event ends the session.
    pub fn handle_window_event(event: &InputEvent) -> (quit: bool)
        ensures
            quit == quit_requested(*event),
    {
        match event {
            InputEvent::CloseRequested => true,
            InputEvent::Keyboard { key, pressed } => {
                if *pressed {
                    match key {
                        Key::Q => true,
                        Key::Escape => true,
                        Key::Other => false,
                    }
                } else {
                    false
                }
            },
            InputEvent::Other => false,
        }
    }
}

} // verus!
