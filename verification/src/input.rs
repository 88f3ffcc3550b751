use vstd::prelude::*;

verus! {

/// The keys the viewer reacts to.
#[derive(Clone, Copy, PartialEq, Eq, Structural, Debug)]
pub enum Key {
    Space,
    Escape,
    Other,
}

/// What the viewer does after a key event.
#[derive(Clone, Copy, PartialEq, Eq, Structural, Debug)]
pub enum KeyAction {
    /// Draw the window again.
    Redraw,
    /// Close the window and leave the event loop.
    Exit,
    /// Nothing.
    Ignore,
}

/// The viewer's answer to a key event, given whether the hexagon is shown:
/// pressing space toggles the hexagon and asks for a redraw, pressing escape
/// exits, and anything else (including releases) changes nothing.
pub fn on_key(hexagon_shown: bool, key: Key, pressed: bool) -> (res: (bool, KeyAction))
    ensures
        res == (if pressed && key == Key::Space {
            (!hexagon_shown, KeyAction::Redraw)
        } else if pressed && key == Key::Escape {
            (hexagon_shown, KeyAction::Exit)
        } else {
            (hexagon_shown, KeyAction::Ignore)
        }),
{
    match (key, pressed) {
        (Key::Space, true) => (!hexagon_shown, KeyAction::Redraw),
        (Key::Escape, true) => (hexagon_shown, KeyAction::Exit),
        _ => (hexagon_shown, KeyAction::Ignore),
    }
}

} // verus!
