use vstd::prelude::*;

verus! {

/// The number of keys on the keypad.
pub const NUM_KEYS: usize = 16;

/// A snapshot of the keypad: entry `k` tells whether key `k` is held down.
#[derive(Clone, Copy)]
pub struct KeyState {
    pub keys: [bool; 16],
}

impl View for KeyState {
    type V = Seq<bool>;

    open spec fn view(&self) -> Seq<bool> {
        self.keys@
    }
}

impl KeyState {
    /// A keypad with every key released.
    pub fn new() -> (r: KeyState)
        ensures
            r@.len() == NUM_KEYS,
            forall|k: int| 0 <= k < NUM_KEYS ==> !r@[k],
    {
        KeyState { keys: [false; 16] }
    }

    /// Tells whether `key` names a key of the keypad that is held down.
    pub fn is_pressed(&self, key: u8) -> (r: bool)
        ensures
            r == (key < NUM_KEYS && self@[key as int]),
    {
        if (key as usize) < NUM_KEYS {
            self.keys[key as usize]
        } else {
            false
        }
    }

    /// Records that `key` is now held down or released; a value that names
    /// no key leaves the snapshot as it was.
    pub fn set_key(&mut self, key: u8, pressed: bool)
        ensures
            key < NUM_KEYS ==> final(self)@ == old(self)@.update(key as int, pressed),
            key >= NUM_KEYS ==> final(self)@ == old(self)@,
    {
        if (key as usize) < NUM_KEYS {
            self.keys[key as usize] = pressed;
        }
    }
}

/// A keypad with all sixteen keys released.
pub fn create_key_state() -> (r: KeyState)
    ensures
        r@.len() == NUM_KEYS,
        forall|k: int| 0 <= k < NUM_KEYS ==> !r@[k],
{
    KeyState::new()
}

} // verus!
