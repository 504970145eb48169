//! Character sheets.
use vstd::prelude::*;

verus! {

/// The six base attributes.
#[derive(Clone, Copy, Debug, PartialEq, Eq, Structural)]
pub struct Attributes {
    pub strength: u8,
    pub dexterity: u8,
    pub constitution: u8,
    pub intelligence: u8,
    pub wisdom: u8,
    pub charisma: u8,
}

/// A full character sheet.
#[derive(Clone, Debug, PartialEq, Eq)]
pub struct Character {
    pub id: u32,
    pub level: u32,
    pub attributes: Attributes,
    pub hp: u32,
    pub max_hp: u32,
    pub mp: u32,
    pub max_mp: u32,
    pub name: String,
    pub exp: u32,
    pub gold: u32,
}

/// A player on the map.
#[derive(Clone, Debug, PartialEq, Eq)]
pub struct Player {
    pub name: String,
    pub level: u8,
    pub x: i32,
    pub y: i32,
}

impl Player {
    /// A nameless level-one player at the origin.
    pub fn new() -> (r: Player)
        ensures
            r.name@ == Seq::<char>::empty(),
            r.level == 1,
            r.x == 0,
            r.y == 0,
    {
        Player { name: String::new(), level: 1, x: 0, y: 0 }
    }

    pub fn set_x(&mut self, x: i32)
        ensures
            final(self).x == x,
            final(self).y == old(self).y,
            final(self).name == old(self).name,
            final(self).level == old(self).level,
    {
        self.x = x;
    }

    pub fn set_y(&mut self, y: i32)
        ensures
            final(self).y == y,
            final(self).x == old(self).x,
            final(self).name == old(self).name,
            final(self).level == old(self).level,
    {
        self.y = y;
    }
}

} // verus!
