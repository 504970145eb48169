//! What the player's keys ask for, through a table of key bindings.
use vstd::prelude::*;

verus! {

/// Default key code for moving up (`w`).
pub const KEY_UP: i32 = 119;

/// Default key code for moving down (`s`).
pub const KEY_DOWN: i32 = 115;

/// Default key code for moving left (`a`).
pub const KEY_LEFT: i32 = 97;

/// Default key code for moving right (`d`).
pub const KEY_RIGHT: i32 = 100;

/// Default key code for quitting (`q`).
pub const KEY_QUIT: i32 = 113;

/// An action requested from the keyboard.
#[derive(Clone, Copy, Debug, PartialEq, Eq, Structural)]
pub enum InputType {
    Move(i32, i32),
    Pickup,
    ShowInventory,
    Exit,
}

/// Which key code asks for which action. Where two actions share a code,
/// the first in the order up, down, left, right, quit wins.
#[derive(Clone, Copy, Debug, PartialEq, Eq, Structural)]
pub struct KeyBindings {
    pub up: i32,
    pub down: i32,
    pub left: i32,
    pub right: i32,
    pub quit: i32,
}

impl KeyBindings {
    /// The default bindings: `w`, `s`, `a`, `d` to move, `q` to quit.
    pub open spec fn standard() -> KeyBindings {
        KeyBindings { up: KEY_UP, down: KEY_DOWN, left: KEY_LEFT, right: KEY_RIGHT, quit: KEY_QUIT }
    }

    /// The request that `key` makes under these bindings.
    pub open spec fn request(self, key: i32) -> Option<InputType> {
        if key == self.up {
            Some(InputType::Move(0, -1i32))
        } else if key == self.down {
            Some(InputType::Move(0, 1))
        } else if key == self.left {
            Some(InputType::Move(-1i32, 0))
        } else if key == self.right {
            Some(InputType::Move(1, 0))
        } else if key == self.quit {
            Some(InputType::Exit)
        } else {
            None
        }
    }

    pub fn new() -> (r: Self)
        ensures
            r == KeyBindings::standard(),
    {
        KeyBindings { up: KEY_UP, down: KEY_DOWN, left: KEY_LEFT, right: KEY_RIGHT, quit: KEY_QUIT }
    }

    pub fn request_for(&self, key: i32) -> (r: Option<InputType>)
        ensures
            r == self.request(key),
    {
        if key == self.up {
            Some(InputType::Move(0, -1))
        } else if key == self.down {
            Some(InputType::Move(0, 1))
        } else if key == self.left {
            Some(InputType::Move(-1, 0))
        } else if key == self.right {
            Some(InputType::Move(1, 0))
        } else if key == self.quit {
            Some(InputType::Exit)
        } else {
            None
        }
    }
}

/// The request a key code makes under the default bindings.
pub fn handle_key(key: i32) -> (r: Option<InputType>)
    ensures
        r == KeyBindings::standard().request(key),
{
    KeyBindings::new().request_for(key)
}

} // verus!
