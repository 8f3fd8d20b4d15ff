use vstd::prelude::*;
use crate::canvas::{Canvas, SIZE};

verus! {

/// RGB colour of a painted cell.
pub const WHITE: u32 = 0xFFFFFF;

/// RGB colour of an unpainted cell.
pub const BLACK: u32 = 0x000000;

/// The colour shown for a cell holding `v`: white for 1, black for anything else.
pub open spec fn colour_of(v: u8) -> u32 {
    if v == 1 {
        WHITE
    } else {
        BLACK
    }
}

impl Canvas {
    /// Fills `buffer` with the colour of each cell, row by row.
    pub fn render_into(&self, buffer: &mut Vec<u32>)
        requires
            self.wf(),
            old(buffer)@.len() == SIZE,
        ensures
            final(buffer)@.len() == SIZE,
            forall|i: int| 0 <= i < SIZE ==> #[trigger] final(buffer)@[i] == colour_of(self@[i]),
    {
        let pixels = self.pixels();
        let mut i: usize = 0;
        while i < SIZE
            invariant
                pixels@ == self@,
                self@.len() == SIZE,
                buffer@.len() == SIZE,
                0 <= i <= SIZE,
                forall|j: int| 0 <= j < i ==> #[trigger] buffer@[j] == colour_of(self@[j]),
            decreases SIZE - i,
        {
            let colour = if pixels[i] == 1 {
                WHITE
            } else {
                BLACK
            };
            buffer.set(i, colour);
            i = i + 1;
        }
    }

    /// One frame of input: while the primary button is held and the cursor is
    /// known, the cell under it is painted with 1. Painting never erases.
    pub fn apply_input(&mut self, button_down: bool, cursor: Option<(usize, usize)>)
        requires
            old(self).wf(),
        ensures
            final(self).wf(),
            final(self)@ == (match (button_down, cursor) {
                (true, Some((x, y))) => crate::canvas::painted(old(self)@, x as int, y as int, 1),
                _ => old(self)@,
            }),
    {
        if button_down {
            if let Some((x, y)) = cursor {
                self.set_pixel(x, y, 1);
            }
        }
    }
}

/// Whether the session goes on for another frame: the window is open and
/// escape is not held.
pub fn keeps_running(window_open: bool, escape_down: bool) -> (r: bool)
    ensures
        r == (window_open && !escape_down),
{
    window_open && !escape_down
}

} // verus!
