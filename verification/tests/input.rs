use catan::input::{on_key, Key, KeyAction};

#[test]
fn space_toggles_the_hexagon() {
    assert_eq!(on_key(false, Key::Space, true), (true, KeyAction::Redraw));
    assert_eq!(on_key(true, Key::Space, true), (false, KeyAction::Redraw));
}

#[test]
fn escape_exits_and_releases_are_ignored() {
    assert_eq!(on_key(true, Key::Escape, true), (true, KeyAction::Exit));
    assert_eq!(on_key(true, Key::Space, false), (true, KeyAction::Ignore));
    assert_eq!(on_key(false, Key::Escape, false), (false, KeyAction::Ignore));
    assert_eq!(on_key(false, Key::Other, true), (false, KeyAction::Ignore));
}
