use crate::types::positions::{Position, Position3D};
use vstd::prelude::*;

verus! {

/// The part of the world on screen: a box at `(x, y, z)` of the given
/// width, height and depth.
pub struct Camera {
    x: i32,
    y: i32,
    z: i32,
    width: u32,
    height: u32,
    depth: u32,
}

/// What a camera is: its corner and its extent.
#[derive(Clone, Copy, Debug, PartialEq, Eq, Structural)]
pub struct CameraState {
    pub x: i32,
    pub y: i32,
    pub z: i32,
    pub width: u32,
    pub height: u32,
    pub depth: u32,
}

/// `a - b`, or zero where that is negative.
pub open spec fn sat_sub(a: u32, b: u32) -> u32 {
    if a >= b {
        (a - b) as u32
    } else {
        0
    }
}

impl View for Camera {
    type V = CameraState;

    closed spec fn view(&self) -> CameraState {
        CameraState {
            x: self.x,
            y: self.y,
            z: self.z,
            width: self.width,
            height: self.height,
            depth: self.depth,
        }
    }
}

impl Camera {
    /// A camera at the origin, `w` by `h`, one layer deep.
    pub fn new(w: u32, h: u32) -> (r: Self)
        ensures
            r@ == (CameraState { x: 0, y: 0, z: 0, width: w, height: h, depth: 1 }),
    {
        Self { x: 0, y: 0, z: 0, width: w, height: h, depth: 1 }
    }

    /// The camera's corner and extent.
    pub fn state(&self) -> (r: CameraState)
        ensures
            r == self@,
    {
        CameraState {
            x: self.x,
            y: self.y,
            z: self.z,
            width: self.width,
            height: self.height,
            depth: self.depth,
        }
    }

    pub fn width(&self) -> (r: u32)
        ensures
            r == self@.width,
    {
        self.width
    }

    pub fn height(&self) -> (r: u32)
        ensures
            r == self@.height,
    {
        self.height
    }

    pub fn x(&self) -> (r: i32)
        ensures
            r == self@.x,
    {
        self.x
    }

    pub fn y(&self) -> (r: i32)
        ensures
            r == self@.y,
    {
        self.y
    }

    pub fn z(&self) -> (r: i32)
        ensures
            r == self@.z,
    {
        self.z
    }

    pub fn startingz_x(self, x: i32) -> (r: Self)
        ensures
            r@ == (CameraState { x, ..self@ }),
    {
        Self { x, ..self }
    }

    pub fn startingz_y(self, y: i32) -> (r: Self)
        ensures
            r@ == (CameraState { y, ..self@ }),
    {
        Self { y, ..self }
    }

    pub fn startingz_z(self, z: i32) -> (r: Self)
        ensures
            r@ == (CameraState { z, ..self@ }),
    {
        Self { z, ..self }
    }

    pub fn starting_width(self, w: u32) -> (r: Self)
        ensures
            r@ == (CameraState { width: w, ..self@ }),
    {
        Self { width: w, ..self }
    }

    pub fn starting_height(self, h: u32) -> (r: Self)
        ensures
            r@ == (CameraState { height: h, ..self@ }),
    {
        Self { height: h, ..self }
    }

    pub fn starting_depth(self, d: u32) -> (r: Self)
        ensures
            r@ == (CameraState { depth: d, ..self@ }),
    {
        Self { depth: d, ..self }
    }

    pub fn resize(&mut self, w: u32, h: u32, d: u32)
        ensures
            final(self)@ == (CameraState { width: w, height: h, depth: d, ..old(self)@ }),
    {
        self.width = w;
        self.height = h;
        self.depth = d;
    }

    /// Makes the camera larger by `w`, `h` and `d`.
    pub fn grow(&mut self, w: u32, h: u32, d: u32)
        requires
            old(self)@.width + w <= u32::MAX,
            old(self)@.height + h <= u32::MAX,
            old(self)@.depth + d <= u32::MAX,
        ensures
            final(self)@ == (CameraState {
                width: (old(self)@.width + w) as u32,
                height: (old(self)@.height + h) as u32,
                depth: (old(self)@.depth + d) as u32,
                ..old(self)@
            }),
    {
        self.width += w;
        self.height += h;
        self.depth += d;
    }

    /// Makes the camera smaller by `w`, `h` and `d`, down to nothing.
    pub fn shrink(&mut self, w: u32, h: u32, d: u32)
        ensures
            final(self)@ == (CameraState {
                width: sat_sub(old(self)@.width, w),
                height: sat_sub(old(self)@.height, h),
                depth: sat_sub(old(self)@.depth, d),
                ..old(self)@
            }),
    {
        self.width = if let Some(w) = self.width.checked_sub(w) {
            w
        } else {
            0
        };
        self.height = if let Some(h) = self.height.checked_sub(h) {
            h
        } else {
            0
        };
        self.depth = if let Some(d) = self.depth.checked_sub(d) {
            d
        } else {
            0
        };
    }

    /// Moves the camera by `x`, `y` and `z`.
    pub fn shift(&mut self, x: i32, y: i32, z: i32)
        requires
            i32::MIN <= old(self)@.x + x <= i32::MAX,
            i32::MIN <= old(self)@.y + y <= i32::MAX,
            i32::MIN <= old(self)@.z + z <= i32::MAX,
        ensures
            final(self)@ == (CameraState {
                x: (old(self)@.x + x) as i32,
                y: (old(self)@.y + y) as i32,
                z: (old(self)@.z + z) as i32,
                ..old(self)@
            }),
    {
        self.x += x;
        self.y += y;
        self.z += z;
    }

    pub fn set_pos(&mut self, x: i32, y: i32, z: i32)
        ensures
            final(self)@ == (CameraState { x, y, z, ..old(self)@ }),
    {
        self.x = x;
        self.y = y;
        self.z = z;
    }

    /// Where a point of the world shows on screen: its offset from the
    /// camera's corner.
    pub fn get_screen_pos(&self, obj_pos: Position3D<i32>) -> (r: Position<i32>)
        requires
            i32::MIN <= obj_pos.x - self@.x <= i32::MAX,
            i32::MIN <= obj_pos.y - self@.y <= i32::MAX,
        ensures
            r.x == obj_pos.x - self@.x,
            r.y == obj_pos.y - self@.y,
    {
        Position { x: obj_pos.x - self.x, y: obj_pos.y - self.y }
    }
}

} // verus!
