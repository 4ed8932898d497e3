use vstd::prelude::*;

verus! {

/// The drawing surface: the terminal's size in cells.
#[derive(Clone, Hash, Copy, Debug, PartialEq, Eq, Structural)]
pub struct Canvas {
    pub width: usize,
    pub height: usize,
}

impl Canvas {
    pub fn new(w: usize, h: usize) -> (r: Self)
        ensures
            r == (Canvas { width: w, height: h }),
    {
        Self { width: w, height: h }
    }

    /// The number of cells.
    pub fn area(&self) -> (r: usize)
        requires
            self.width * self.height <= usize::MAX,
        ensures
            r == self.width * self.height,
    {
        self.width * self.height
    }
}

} // verus!
