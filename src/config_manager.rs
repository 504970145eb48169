//! Key bindings.
use vstd::prelude::*;

verus! {

/// Keys that can be bound.
#[allow(non_camel_case_types)]
#[derive(Clone, Copy, Debug, PartialEq, Eq, Structural)]
pub enum Key {
    W,
    a,
    d,
    s,
    w,
}

/// The command bound to `key` by default, empty when unbound.
pub open spec fn default_bind(key: Key) -> Seq<char> {
    match key {
        Key::w => "+forward"@,
        Key::s => "+back"@,
        Key::a => "+moveleft"@,
        Key::d => "+moveright"@,
        _ => Seq::empty(),
    }
}

/// Loads configuration: key bindings and, later, option files.
pub struct ConfigManager {}

impl ConfigManager {
    pub fn new() -> (r: Self) {
        Self {  }
    }

    /// The default key bindings.
    pub fn get_keybinds(&self) -> (r: Keybinds) {
        Keybinds {  }
    }

    /// Runs a configuration script; none are supported yet, so nothing
    /// happens.
    pub fn execute(&self, filename: &str) {
    }
}

/// A table of key bindings.
pub struct Keybinds {}

impl Keybinds {
    /// The command bound to `key`, if any.
    pub fn get(&self, key: Key) -> (r: Option<&'static str>)
        ensures
            match r {
                Some(b) => b@ == default_bind(key) && b@.len() > 0,
                None => default_bind(key).len() == 0,
            },
    {
        proof {
            reveal_strlit("+forward");
            reveal_strlit("+back");
            reveal_strlit("+moveleft");
            reveal_strlit("+moveright");
        }
        match key {
            Key::w => Some("+forward"),
            Key::s => Some("+back"),
            Key::a => Some("+moveleft"),
            Key::d => Some("+moveright"),
            _ => None,
        }
    }
}

} // verus!
