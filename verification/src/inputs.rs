use vstd::prelude::*;

verus! {

/// Edge detector for the four buttons. `pressed` remembers the level each
/// line showed on the last sample; `pressed_once` is true for exactly one
/// sample per physical press: the one on which the line went high.
///
/// Sampling the physical lines happens outside; each tick the raw levels
/// are handed to `update`.
pub struct Inputs {
    pub pressed: [bool; 4],
    pub pressed_once: [bool; 4],
}

impl Inputs {
    /// A fresh detector has seen no press on any line.
    pub fn new() -> (r: Inputs)
        ensures
            forall|i: int| 0 <= i < 4 ==> !r.pressed[i] && !r.pressed_once[i],
    {
        Inputs { pressed: [false; 4], pressed_once: [false; 4] }
    }

    /// Folds one sampled level into the state of button `index`: a fresh
    /// edge is a high level on a line that was low last sample.
    pub fn update_button(&mut self, is_pressed: bool, index: usize)
        requires
            index < 4,
        ensures
            final(self).pressed[index as int] == is_pressed,
            final(self).pressed_once[index as int] == (is_pressed && !old(self).pressed[index as int]),
            forall|i: int|
                0 <= i < 4 && i != index ==> final(self).pressed[i] == old(self).pressed[i]
                    && final(self).pressed_once[i] == old(self).pressed_once[i],
    {
        if is_pressed {
            if !self.pressed[index] {
                self.pressed_once[index] = true;
            } else {
                self.pressed_once[index] = false;
            }
            self.pressed[index] = true;
        } else {
            self.pressed[index] = false;
            self.pressed_once[index] = false;
        }
    }

    /// Folds one full sample of all four lines into the state.
    pub fn update(&mut self, levels: [bool; 4])
        ensures
            forall|i: int|
                0 <= i < 4 ==> final(self).pressed[i] == levels[i] && final(self).pressed_once[i]
                    == (levels[i] && !old(self).pressed[i]),
    {
        self.update_button(levels[0], 0);
        self.update_button(levels[1], 1);
        self.update_button(levels[2], 2);
        self.update_button(levels[3], 3);
    }

    /// The fresh press edges seen on the last sample.
    pub fn is_pressed(&self) -> (r: &[bool; 4])
        ensures
            r == self.pressed_once,
    {
        &self.pressed_once
    }
}

} // verus!
