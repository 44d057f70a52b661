use vstd::prelude::*;

verus! {

/// A key the editor reacts to.
#[derive(Debug, PartialEq, Eq, Structural, Copy, Clone)]
pub enum Key {
    A,
    B,
    C,
    D,
    E,
    H,
    J,
    K,
    L,
    W,
    X,
    R,
    O,
    U,
    V,
    Delete,
    Tab,
    Enter,
    Escape,
    UpArrow,
    DownArrow,
    LeftArrow,
    RightArrow,
}

/// A key press together with the modifier keys held at the time.
#[derive(Debug, Copy, Clone)]
pub struct Keypress {
    pub key: Key,
    pub ctrl: bool,
    pub shift: bool,
}

impl Keypress {
    pub fn new(key: Key, ctrl: bool, shift: bool) -> (k: Keypress)
        ensures
            k.key == key,
            k.ctrl == ctrl,
            k.shift == shift,
    {
        Keypress { key, ctrl, shift }
    }
}

} // verus!
