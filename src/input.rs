use vstd::prelude::*;

verus! {

/// The movement keys the player can hold.
#[derive(Clone, Copy, Debug, PartialEq, Eq, Structural)]
pub enum MoveKey {
    W,
    S,
    A,
    D,
    Space,
    Shift,
}

/// What happened to a key.
#[derive(Clone, Copy, Debug, PartialEq, Eq, Structural)]
pub enum KeyAction {
    Press,
    Release,
    Repeat,
}

/// Which movement keys are held.
#[derive(Clone, Copy, Debug, PartialEq, Eq, Structural)]
pub struct Keys {
    pub w: bool,
    pub s: bool,
    pub a: bool,
    pub d: bool,
    pub space: bool,
    pub shift: bool,
}

impl Keys {
    /// The state of `key` in these keys.
    pub open spec fn held(self, key: MoveKey) -> bool {
        match key {
            MoveKey::W => self.w,
            MoveKey::S => self.s,
            MoveKey::A => self.a,
            MoveKey::D => self.d,
            MoveKey::Space => self.space,
            MoveKey::Shift => self.shift,
        }
    }

    /// No key held.
    pub fn new() -> (r: Keys)
        ensures
            forall|k: MoveKey| !(#[trigger] r.held(k)),
    {
        Keys { w: false, s: false, a: false, d: false, space: false, shift: false }
    }

    /// Records a key event: a press holds the key, a release lets it go, and a
    /// repeat changes nothing.
    pub fn apply(&mut self, key: MoveKey, action: KeyAction)
        ensures
            action == KeyAction::Repeat ==> *final(self) == *old(self),
            action != KeyAction::Repeat ==> final(self).held(key) == (action == KeyAction::Press),
            forall|k: MoveKey| k != key ==> #[trigger] final(self).held(k) == old(self).held(k),
    {
        if action == KeyAction::Repeat {
            return;
        }
        let down = action == KeyAction::Press;
        match key {
            MoveKey::W => self.w = down,
            MoveKey::S => self.s = down,
            MoveKey::A => self.a = down,
            MoveKey::D => self.d = down,
            MoveKey::Space => self.space = down,
            MoveKey::Shift => self.shift = down,
        }
    }

    /// The horizontal direction asked for, as `(x, z)`: `d` minus `a`, and `w`
    /// minus `s`.
    pub fn horizontal_direction(&self) -> (r: (i8, i8))
        ensures
            r.0 == (if self.d { 1int } else { 0int }) - (if self.a { 1int } else { 0int }),
            r.1 == (if self.w { 1int } else { 0int }) - (if self.s { 1int } else { 0int }),
    {
        let mut x: i8 = 0;
        let mut z: i8 = 0;
        if self.w {
            z = z + 1;
        }
        if self.s {
            z = z - 1;
        }
        if self.a {
            x = x - 1;
        }
        if self.d {
            x = x + 1;
        }
        (x, z)
    }

    /// The vertical direction asked for: `space` minus `shift`.
    pub fn vertical_direction(&self) -> (r: i8)
        ensures
            r == (if self.space { 1int } else { 0int }) - (if self.shift { 1int } else { 0int }),
    {
        let mut y: i8 = 0;
        if self.space {
            y = y + 1;
        }
        if self.shift {
            y = y - 1;
        }
        y
    }
}

} // verus!
