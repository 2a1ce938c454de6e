use vstd::prelude::*;

verus! {

/// Number of keys (hex digits 0 to F).
pub const N_KEYS: usize = 16;

/// The state of the 16 keys: `true` for pressed.
pub struct Keypad {
    pub keys: [bool; N_KEYS],
}

impl Keypad {
    /// Every key released.
    pub fn new() -> (r: Keypad)
        ensures
            r.keys@ == Seq::new(N_KEYS as nat, |k: int| false),
    {
        let r = Keypad { keys: [false; N_KEYS] };
        assert(r.keys@ =~= Seq::new(N_KEYS as nat, |k: int| false));
        r
    }

    /// Presses or releases key `index`.
    pub fn set_pressed(&mut self, index: usize, pressed: bool)
        requires
            index < N_KEYS,
        ensures
            final(self).keys@ == old(self).keys@.update(index as int, pressed),
    {
        self.keys[index] = pressed;
    }

    /// Whether key `index` is pressed.
    pub fn is_pressed(&self, index: usize) -> (r: bool)
        requires
            index < N_KEYS,
        ensures
            r == self.keys@[index as int],
    {
        self.keys[index]
    }
}

} // verus!
