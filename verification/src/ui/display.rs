use super::style::Measure;
use vstd::prelude::*;

verus! {

/// Something on screen that can be updated and drawn.
pub trait UIElement<R> {
    fn update(&mut self) -> Option<R>;

    fn output(&self) -> String;
}

/// The corner or center that a box's position refers to.
#[derive(Debug, Copy, Clone, PartialEq, Eq, Structural)]
pub enum Origin {
    TopLeft,
    TopRight,
    BottomLeft,
    BottomRight,
    Center,
}

/// Where a box is and how large it is.
#[derive(Debug, Copy, Clone, PartialEq, Eq, Structural)]
pub struct DisplayProperties {
    pub x: usize,
    pub y: usize,
    pub w: Option<Measure>,
    pub h: Option<Measure>,
    pub o: Origin,
}

impl DisplayProperties {
    pub fn new(x: usize, y: usize, w: Option<Measure>, h: Option<Measure>, o: Origin) -> (r: Self)
        ensures
            r == (DisplayProperties { x, y, w, h, o }),
    {
        Self { x, y, w, h, o }
    }
}

impl Default for DisplayProperties {
    /// At the origin, content-sized, measured from the top left.
    fn default() -> (r: Self)
        ensures
            r == (DisplayProperties { x: 0, y: 0, w: None, h: None, o: Origin::TopLeft }),
    {
        Self { x: 0, y: 0, w: None, h: None, o: Origin::TopLeft }
    }
}

} // verus!
