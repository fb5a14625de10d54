//! The keypad and the monochrome display.
use vstd::prelude::*;

use crate::model::first_pressed_from;

verus! {

/// The sixteen keys of the hexadecimal keypad; `true` means held down.
#[derive(Clone, Copy)]
pub struct Keypad {
    pub keys: [bool; 16],
}

impl Keypad {
    /// A keypad with every key up.
    pub fn new() -> (keypad: Keypad)
        ensures
            forall|k: int| 0 <= k < 16 ==> !#[trigger] keypad.keys@[k],
    {
        let keypad = Keypad { keys: [false;16] };
        keypad
    }

    /// Whether some key is down.
    pub fn any_pressed(&self) -> (pressed: bool)
        ensures
            pressed == (first_pressed_from(self.keys@, 0) < 16),
    {
        let mut k: usize = 0;
        while k < 16
            invariant
                k <= 16,
                first_pressed_from(self.keys@, 0) == first_pressed_from(self.keys@, k as int),
            decreases 16 - k,
        {
            if self.keys[k] {
                return true;
            }
            k = k + 1;
        }
        false
    }

    /// Flips key `key` between up and down.
    pub fn toggle(&mut self, key: u8)
        requires
            key < 16,
        ensures
            final(self).keys@ == old(self).keys@.update(key as int, !old(self).keys@[key as int]),
    {
        let idx: usize = key as usize;
        self.keys[idx] = !self.keys[idx];
    }

    /// Sets key `key` down or up.
    pub fn set(&mut self, key: u8, down: bool)
        requires
            key < 16,
        ensures
            final(self).keys@ == old(self).keys@.update(key as int, down),
    {
        self.keys[key as usize] = down;
    }

    /// Lets every key up.
    pub fn release_all(&mut self)
        ensures
            forall|k: int| 0 <= k < 16 ==> !#[trigger] final(self).keys@[k],
    {
        self.keys = [false;16];
    }

    /// The keys held down as a bit mask: bit `k` is set when key `k` is down.
    pub fn pressed_mask(&self) -> (mask: u16)
        ensures
            forall|k: u16| k < 16 ==> ((mask >> k) & 1 == 1 <==> #[trigger] self.keys@[k as int]),
    {
        let mut mask: u16 = 0;
        let mut idx: u16 = 0;
        assert(0u16 < (1u16 << 0u16)) by (bit_vector);
        while idx < 16
            invariant
                idx <= 16,
                mask < (1u16 << idx) || idx == 16,
                forall|k: u16| k < idx ==> ((mask >> k) & 1 == 1 <==> #[trigger] self.keys@[k as int]),
            decreases 16 - idx,
        {
            let pressed = self.keys[idx as usize];
            let old_mask = mask;
            if pressed {
                mask = mask | (1u16 << idx);
            }
            proof {
                assert forall|k: u16| k < idx + 1 implies ((mask >> k) & 1 == 1 <==> #[trigger] self.keys@[k as int]) by {
                    if k < idx {
                        assert(((old_mask | (1u16 << idx)) >> k) & 1 == (old_mask >> k) & 1) by (bit_vector)
                            requires k < idx, idx < 16;
                    } else {
                        assert(((old_mask | (1u16 << idx)) >> idx) & 1 == 1) by (bit_vector)
                            requires idx < 16;
                        assert((old_mask >> idx) & 1 == 0) by (bit_vector)
                            requires idx < 16, old_mask < (1u16 << idx);
                    }
                }
                if idx + 1 < 16 {
                    assert((old_mask | (1u16 << idx)) < (1u16 << (idx + 1))) by (bit_vector)
                        requires idx < 15, old_mask < (1u16 << idx);
                    assert(old_mask < (1u16 << (idx + 1))) by (bit_vector)
                        requires idx < 15, old_mask < (1u16 << idx);
                }
            }
            idx = idx + 1;
        }
        mask
    }
}

/// The 64 x 32 monochrome display, row by row; `true` means lit.
#[derive(Clone, Copy)]
pub struct Display {
    pub memory: [bool; 2048],
}

impl Display {
    /// A display with every pixel dark.
    pub fn new() -> (display: Display)
        ensures
            forall|k: int| 0 <= k < 2048 ==> !#[trigger] display.memory@[k],
    {
        let display = Display { memory: [false;2048] };
        display
    }

    /// Turns every pixel dark.
    pub fn clear(&mut self)
        ensures
            forall|k: int| 0 <= k < 2048 ==> !#[trigger] final(self).memory@[k],
    {
        self.memory = [false;2048];
    }
}

} // verus!
