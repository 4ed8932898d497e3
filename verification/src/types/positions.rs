use vstd::prelude::*;

verus! {

/// Integer-like coordinate values.
///
/// Every implementation is a machine integer; `value` is the mathematical
/// integer it stands for and `representable` is the range of the type.
pub trait Numeric: Copy + Sized {
    spec fn value(self) -> int;

    spec fn representable(v: int) -> bool;

    /// The additive identity.
    fn zero() -> (r: Self)
        ensures
            r.value() == 0,
    ;

    /// Sum of two values; the sum must be representable.
    fn plus(self, other: Self) -> (r: Self)
        requires
            Self::representable(self.value() + other.value()),
        ensures
            r.value() == self.value() + other.value(),
    ;

    /// Product of two values; the product must be representable.
    fn times(self, other: Self) -> (r: Self)
        requires
            Self::representable(self.value() * other.value()),
        ensures
            r.value() == self.value() * other.value(),
    ;

    /// Difference of two values; the difference must be representable.
    fn minus(self, other: Self) -> (r: Self)
        requires
            Self::representable(self.value() - other.value()),
        ensures
            r.value() == self.value() - other.value(),
    ;

    /// Quotient of two values, rounded toward zero; the divisor is not
    /// zero and the quotient must be representable.
    fn divided(self, other: Self) -> (r: Self)
        requires
            other.value() != 0,
            Self::representable(trunc_div(self.value(), other.value())),
        ensures
            r.value() == trunc_div(self.value(), other.value()),
    ;

    /// The value converted to `i32` the way `as i32` converts: the low
    /// 32 bits read as a two's complement number.
    fn as_i32(&self) -> (r: i32)
        ensures
            r as int == wrap_i32(self.value()),
    ;
}

/// `x / d` rounded toward zero, as integer division rounds.
pub open spec fn trunc_div(x: int, d: int) -> int {
    if x == 0 {
        0
    } else if x > 0 && d > 0 {
        x / d
    } else if x < 0 && d < 0 {
        (x * -1) / (d * -1)
    } else if x < 0 {
        ((x * -1) / d) * -1
    } else {
        (x / (d * -1)) * -1
    }
}

/// `v` reduced to the `i32` range modulo 2^32.
pub open spec fn wrap_i32(v: int) -> int {
    let m = v % 0x1_0000_0000;
    if m >= 0x8000_0000 {
        m - 0x1_0000_0000
    } else {
        m
    }
}

impl Numeric for i32 {
    open spec fn value(self) -> int {
        self as int
    }

    open spec fn representable(v: int) -> bool {
        i32::MIN <= v <= i32::MAX
    }

    fn zero() -> (r: Self) {
        0
    }

    fn plus(self, other: Self) -> (r: Self) {
        self + other
    }

    fn times(self, other: Self) -> (r: Self) {
        self * other
    }

    fn minus(self, other: Self) -> (r: Self) {
        self - other
    }

    fn divided(self, other: Self) -> (r: Self) {
        match self.checked_div(other) {
            Some(q) => q,
            None => 0,
        }
    }

    fn as_i32(&self) -> (r: i32) {
        *self
    }
}


impl Numeric for u8 {
    open spec fn value(self) -> int {
        self as int
    }

    open spec fn representable(v: int) -> bool {
        0 <= v <= u8::MAX
    }

    fn zero() -> (r: Self) {
        0
    }

    fn plus(self, other: Self) -> (r: Self) {
        self + other
    }

    fn times(self, other: Self) -> (r: Self) {
        self * other
    }

    fn minus(self, other: Self) -> (r: Self) {
        self - other
    }

    fn divided(self, other: Self) -> (r: Self) {
        self / other
    }

    fn as_i32(&self) -> (r: i32) {
        *self as i32
    }
}

impl Numeric for u16 {
    open spec fn value(self) -> int {
        self as int
    }

    open spec fn representable(v: int) -> bool {
        0 <= v <= u16::MAX
    }

    fn zero() -> (r: Self) {
        0
    }

    fn plus(self, other: Self) -> (r: Self) {
        self + other
    }

    fn times(self, other: Self) -> (r: Self) {
        self * other
    }

    fn minus(self, other: Self) -> (r: Self) {
        self - other
    }

    fn divided(self, other: Self) -> (r: Self) {
        self / other
    }

    fn as_i32(&self) -> (r: i32) {
        *self as i32
    }
}

impl Numeric for u32 {
    open spec fn value(self) -> int {
        self as int
    }

    open spec fn representable(v: int) -> bool {
        0 <= v <= u32::MAX
    }

    fn zero() -> (r: Self) {
        0
    }

    fn plus(self, other: Self) -> (r: Self) {
        self + other
    }

    fn times(self, other: Self) -> (r: Self) {
        self * other
    }

    fn minus(self, other: Self) -> (r: Self) {
        self - other
    }

    fn divided(self, other: Self) -> (r: Self) {
        self / other
    }

    fn as_i32(&self) -> (r: i32) {
        let r = *self as i32;
        proof {
            let x = *self;
            assert(r as int == wrap_i32(x as int)) by (bit_vector)
                requires
                    r == x as i32,
            ;
        }
        r
    }
}

impl Numeric for u64 {
    open spec fn value(self) -> int {
        self as int
    }

    open spec fn representable(v: int) -> bool {
        0 <= v <= u64::MAX
    }

    fn zero() -> (r: Self) {
        0
    }

    fn plus(self, other: Self) -> (r: Self) {
        self + other
    }

    fn times(self, other: Self) -> (r: Self) {
        self * other
    }

    fn minus(self, other: Self) -> (r: Self) {
        self - other
    }

    fn divided(self, other: Self) -> (r: Self) {
        self / other
    }

    fn as_i32(&self) -> (r: i32) {
        let r = *self as i32;
        proof {
            let x = *self;
            assert(r as int == wrap_i32(x as int)) by (bit_vector)
                requires
                    r == x as i32,
            ;
        }
        r
    }
}

impl Numeric for usize {
    open spec fn value(self) -> int {
        self as int
    }

    open spec fn representable(v: int) -> bool {
        0 <= v <= usize::MAX
    }

    fn zero() -> (r: Self) {
        0
    }

    fn plus(self, other: Self) -> (r: Self) {
        self + other
    }

    fn times(self, other: Self) -> (r: Self) {
        self * other
    }

    fn minus(self, other: Self) -> (r: Self) {
        self - other
    }

    fn divided(self, other: Self) -> (r: Self) {
        self / other
    }

    fn as_i32(&self) -> (r: i32) {
        let r = *self as i32;
        proof {
            let x = *self;
            assert(r as int == wrap_i32(x as int)) by (bit_vector)
                requires
                    r == x as i32,
            ;
        }
        r
    }
}

impl Numeric for i8 {
    open spec fn value(self) -> int {
        self as int
    }

    open spec fn representable(v: int) -> bool {
        i8::MIN <= v <= i8::MAX
    }

    fn zero() -> (r: Self) {
        0
    }

    fn plus(self, other: Self) -> (r: Self) {
        self + other
    }

    fn times(self, other: Self) -> (r: Self) {
        self * other
    }

    fn minus(self, other: Self) -> (r: Self) {
        self - other
    }

    fn divided(self, other: Self) -> (r: Self) {
        match self.checked_div(other) {
            Some(q) => q,
            None => 0,
        }
    }

    fn as_i32(&self) -> (r: i32) {
        *self as i32
    }
}

impl Numeric for i16 {
    open spec fn value(self) -> int {
        self as int
    }

    open spec fn representable(v: int) -> bool {
        i16::MIN <= v <= i16::MAX
    }

    fn zero() -> (r: Self) {
        0
    }

    fn plus(self, other: Self) -> (r: Self) {
        self + other
    }

    fn times(self, other: Self) -> (r: Self) {
        self * other
    }

    fn minus(self, other: Self) -> (r: Self) {
        self - other
    }

    fn divided(self, other: Self) -> (r: Self) {
        match self.checked_div(other) {
            Some(q) => q,
            None => 0,
        }
    }

    fn as_i32(&self) -> (r: i32) {
        *self as i32
    }
}

impl Numeric for i64 {
    open spec fn value(self) -> int {
        self as int
    }

    open spec fn representable(v: int) -> bool {
        i64::MIN <= v <= i64::MAX
    }

    fn zero() -> (r: Self) {
        0
    }

    fn plus(self, other: Self) -> (r: Self) {
        self + other
    }

    fn times(self, other: Self) -> (r: Self) {
        self * other
    }

    fn minus(self, other: Self) -> (r: Self) {
        self - other
    }

    fn divided(self, other: Self) -> (r: Self) {
        match self.checked_div(other) {
            Some(q) => q,
            None => 0,
        }
    }

    fn as_i32(&self) -> (r: i32) {
        let r = *self as i32;
        proof {
            let x = *self;
            assert(r as int == wrap_i32(x as int)) by (bit_vector)
                requires
                    r == x as i32,
            ;
        }
        r
    }
}

impl Numeric for isize {
    open spec fn value(self) -> int {
        self as int
    }

    open spec fn representable(v: int) -> bool {
        isize::MIN <= v <= isize::MAX
    }

    fn zero() -> (r: Self) {
        0
    }

    fn plus(self, other: Self) -> (r: Self) {
        self + other
    }

    fn times(self, other: Self) -> (r: Self) {
        self * other
    }

    fn minus(self, other: Self) -> (r: Self) {
        self - other
    }

    fn divided(self, other: Self) -> (r: Self) {
        match self.checked_div(other) {
            Some(q) => q,
            None => 0,
        }
    }

    fn as_i32(&self) -> (r: i32) {
        let r = *self as i32;
        proof {
            let x = *self;
            assert(r as int == wrap_i32(x as int)) by (bit_vector)
                requires
                    r == x as i32,
            ;
        }
        r
    }
}

/// A point on a plane.
#[derive(Debug, Clone, Copy, PartialEq, Eq, Hash, PartialOrd, Ord)]
pub struct Position<T: Numeric> {
    pub x: T,
    pub y: T,
}

impl<T: Numeric> Position<T> {
    pub fn new(x: T, y: T) -> (r: Self)
        ensures
            r.x == x,
            r.y == y,
    {
        Self { x, y }
    }

    /// This position moved by `x` and `y`.
    pub fn add(self, x: T, y: T) -> (r: Self)
        requires
            T::representable(self.x.value() + x.value()),
            T::representable(self.y.value() + y.value()),
        ensures
            r.x.value() == self.x.value() + x.value(),
            r.y.value() == self.y.value() + y.value(),
    {
        Self { x: self.x.plus(x), y: self.y.plus(y) }
    }

    /// This position moved by the coordinates of `pos`.
    pub fn join(self, pos: Position<T>) -> (r: Self)
        requires
            T::representable(self.x.value() + pos.x.value()),
            T::representable(self.y.value() + pos.y.value()),
        ensures
            r.x.value() == self.x.value() + pos.x.value(),
            r.y.value() == self.y.value() + pos.y.value(),
    {
        Self { x: self.x.plus(pos.x), y: self.y.plus(pos.y) }
    }

    /// This position less the coordinates of `rhs`.
    pub fn difference(self, rhs: Position<T>) -> (r: Self)
        requires
            T::representable(self.x.value() - rhs.x.value()),
            T::representable(self.y.value() - rhs.y.value()),
        ensures
            r.x.value() == self.x.value() - rhs.x.value(),
            r.y.value() == self.y.value() - rhs.y.value(),
    {
        Self { x: self.x.minus(rhs.x), y: self.y.minus(rhs.y) }
    }

    /// This position with each coordinate times that of `rhs`.
    pub fn product(self, rhs: Position<T>) -> (r: Self)
        requires
            T::representable(self.x.value() * rhs.x.value()),
            T::representable(self.y.value() * rhs.y.value()),
        ensures
            r.x.value() == self.x.value() * rhs.x.value(),
            r.y.value() == self.y.value() * rhs.y.value(),
    {
        Self { x: self.x.times(rhs.x), y: self.y.times(rhs.y) }
    }

    /// This position with each coordinate divided by that of `rhs`, rounded toward zero.
    pub fn quotient(self, rhs: Position<T>) -> (r: Self)
        requires
            rhs.x.value() != 0,
            rhs.y.value() != 0,
            T::representable(trunc_div(self.x.value(), rhs.x.value())),
            T::representable(trunc_div(self.y.value(), rhs.y.value())),
        ensures
            r.x.value() == trunc_div(self.x.value(), rhs.x.value()),
            r.y.value() == trunc_div(self.y.value(), rhs.y.value()),
    {
        Self { x: self.x.divided(rhs.x), y: self.y.divided(rhs.y) }
    }

    /// Makes this position the one moved by the coordinates of `rhs`.
    pub fn add_assign(&mut self, rhs: Position<T>)
        requires
            T::representable(old(self).x.value() + rhs.x.value()),
            T::representable(old(self).y.value() + rhs.y.value()),
        ensures
            final(self).x.value() == old(self).x.value() + rhs.x.value(),
            final(self).y.value() == old(self).y.value() + rhs.y.value(),
    {
        self.x = self.x.plus(rhs.x);
        self.y = self.y.plus(rhs.y);
    }

    /// Makes this position the one moved back by the coordinates of `rhs`.
    pub fn sub_assign(&mut self, rhs: Position<T>)
        requires
            T::representable(old(self).x.value() - rhs.x.value()),
            T::representable(old(self).y.value() - rhs.y.value()),
        ensures
            final(self).x.value() == old(self).x.value() - rhs.x.value(),
            final(self).y.value() == old(self).y.value() - rhs.y.value(),
    {
        self.x = self.x.minus(rhs.x);
        self.y = self.y.minus(rhs.y);
    }

    /// Makes this position the one with each coordinate multiplied by that of `rhs`.
    pub fn mul_assign(&mut self, rhs: Position<T>)
        requires
            T::representable(old(self).x.value() * rhs.x.value()),
            T::representable(old(self).y.value() * rhs.y.value()),
        ensures
            final(self).x.value() == old(self).x.value() * rhs.x.value(),
            final(self).y.value() == old(self).y.value() * rhs.y.value(),
    {
        self.x = self.x.times(rhs.x);
        self.y = self.y.times(rhs.y);
    }

    /// Makes this position the one with each coordinate divided by that of `rhs`, rounded toward zero.
    pub fn div_assign(&mut self, rhs: Position<T>)
        requires
            rhs.x.value() != 0,
            rhs.y.value() != 0,
            T::representable(trunc_div(old(self).x.value(), rhs.x.value())),
            T::representable(trunc_div(old(self).y.value(), rhs.y.value())),
        ensures
            final(self).x.value() == trunc_div(old(self).x.value(), rhs.x.value()),
            final(self).y.value() == trunc_div(old(self).y.value(), rhs.y.value()),
    {
        self.x = self.x.divided(rhs.x);
        self.y = self.y.divided(rhs.y);
    }

    /// The same point in space, on depth zero.
    pub fn to_3d(self) -> (r: Position3D<T>)
        ensures
            r.x == self.x,
            r.y == self.y,
            r.z.value() == 0,
    {
        Position3D { x: self.x, y: self.y, z: T::zero() }
    }

    /// The point with both coordinates converted with `as i32`.
    pub fn to_i32(self) -> (r: Position<i32>)
        ensures
            r.x as int == wrap_i32(self.x.value()),
            r.y as int == wrap_i32(self.y.value()),
    {
        Position { x: self.x.as_i32(), y: self.y.as_i32() }
    }
}

impl<T: Numeric> Default for Position<T> {
    fn default() -> (r: Self)
        ensures
            r.x.value() == 0,
            r.y.value() == 0,
    {
        Self { x: T::zero(), y: T::zero() }
    }
}

/// A point in space.
#[derive(Debug, Clone, Copy, PartialEq, Eq, Hash, PartialOrd, Ord)]
pub struct Position3D<T: Numeric> {
    pub x: T,
    pub y: T,
    pub z: T,
}

impl<T: Numeric> Position3D<T> {
    pub fn new(x: T, y: T, z: T) -> (r: Self)
        ensures
            r.x == x,
            r.y == y,
            r.z == z,
    {
        Self { x, y, z }
    }

    /// This position moved by `x`, `y` and `z`.
    pub fn add(self, x: T, y: T, z: T) -> (r: Self)
        requires
            T::representable(self.x.value() + x.value()),
            T::representable(self.y.value() + y.value()),
            T::representable(self.z.value() + z.value()),
        ensures
            r.x.value() == self.x.value() + x.value(),
            r.y.value() == self.y.value() + y.value(),
            r.z.value() == self.z.value() + z.value(),
    {
        Self { x: self.x.plus(x), y: self.y.plus(y), z: self.z.plus(z) }
    }

    /// This position moved by the coordinates of `pos`.
    pub fn join(self, pos: Position3D<T>) -> (r: Self)
        requires
            T::representable(self.x.value() + pos.x.value()),
            T::representable(self.y.value() + pos.y.value()),
            T::representable(self.z.value() + pos.z.value()),
        ensures
            r.x.value() == self.x.value() + pos.x.value(),
            r.y.value() == self.y.value() + pos.y.value(),
            r.z.value() == self.z.value() + pos.z.value(),
    {
        Self { x: self.x.plus(pos.x), y: self.y.plus(pos.y), z: self.z.plus(pos.z) }
    }

    /// This position less the coordinates of `rhs`.
    pub fn difference(self, rhs: Position3D<T>) -> (r: Self)
        requires
            T::representable(self.x.value() - rhs.x.value()),
            T::representable(self.y.value() - rhs.y.value()),
            T::representable(self.z.value() - rhs.z.value()),
        ensures
            r.x.value() == self.x.value() - rhs.x.value(),
            r.y.value() == self.y.value() - rhs.y.value(),
            r.z.value() == self.z.value() - rhs.z.value(),
    {
        Self { x: self.x.minus(rhs.x), y: self.y.minus(rhs.y), z: self.z.minus(rhs.z) }
    }

    /// This position with each coordinate times that of `rhs`.
    pub fn product(self, rhs: Position3D<T>) -> (r: Self)
        requires
            T::representable(self.x.value() * rhs.x.value()),
            T::representable(self.y.value() * rhs.y.value()),
            T::representable(self.z.value() * rhs.z.value()),
        ensures
            r.x.value() == self.x.value() * rhs.x.value(),
            r.y.value() == self.y.value() * rhs.y.value(),
            r.z.value() == self.z.value() * rhs.z.value(),
    {
        Self { x: self.x.times(rhs.x), y: self.y.times(rhs.y), z: self.z.times(rhs.z) }
    }

    /// This position with each coordinate divided by that of `rhs`, rounded toward zero.
    pub fn quotient(self, rhs: Position3D<T>) -> (r: Self)
        requires
            rhs.x.value() != 0,
            rhs.y.value() != 0,
            rhs.z.value() != 0,
            T::representable(trunc_div(self.x.value(), rhs.x.value())),
            T::representable(trunc_div(self.y.value(), rhs.y.value())),
            T::representable(trunc_div(self.z.value(), rhs.z.value())),
        ensures
            r.x.value() == trunc_div(self.x.value(), rhs.x.value()),
            r.y.value() == trunc_div(self.y.value(), rhs.y.value()),
            r.z.value() == trunc_div(self.z.value(), rhs.z.value()),
    {
        Self { x: self.x.divided(rhs.x), y: self.y.divided(rhs.y), z: self.z.divided(rhs.z) }
    }

    /// Makes this position the one moved by the coordinates of `rhs`.
    pub fn add_assign(&mut self, rhs: Position3D<T>)
        requires
            T::representable(old(self).x.value() + rhs.x.value()),
            T::representable(old(self).y.value() + rhs.y.value()),
            T::representable(old(self).z.value() + rhs.z.value()),
        ensures
            final(self).x.value() == old(self).x.value() + rhs.x.value(),
            final(self).y.value() == old(self).y.value() + rhs.y.value(),
            final(self).z.value() == old(self).z.value() + rhs.z.value(),
    {
        self.x = self.x.plus(rhs.x);
        self.y = self.y.plus(rhs.y);
        self.z = self.z.plus(rhs.z);
    }

    /// Makes this position the one moved back by the coordinates of `rhs`:
    /// the difference is kept in `self`.
    pub fn sub_assign(&mut self, rhs: Position3D<T>)
        requires
            T::representable(old(self).x.value() - rhs.x.value()),
            T::representable(old(self).y.value() - rhs.y.value()),
            T::representable(old(self).z.value() - rhs.z.value()),
        ensures
            final(self).x.value() == old(self).x.value() - rhs.x.value(),
            final(self).y.value() == old(self).y.value() - rhs.y.value(),
            final(self).z.value() == old(self).z.value() - rhs.z.value(),
    {
        self.x = self.x.minus(rhs.x);
        self.y = self.y.minus(rhs.y);
        self.z = self.z.minus(rhs.z);
    }

    /// Makes this position the one with each coordinate multiplied by that of `rhs`:
    /// the product is kept in `self`.
    pub fn mul_assign(&mut self, rhs: Position3D<T>)
        requires
            T::representable(old(self).x.value() * rhs.x.value()),
            T::representable(old(self).y.value() * rhs.y.value()),
            T::representable(old(self).z.value() * rhs.z.value()),
        ensures
            final(self).x.value() == old(self).x.value() * rhs.x.value(),
            final(self).y.value() == old(self).y.value() * rhs.y.value(),
            final(self).z.value() == old(self).z.value() * rhs.z.value(),
    {
        self.x = self.x.times(rhs.x);
        self.y = self.y.times(rhs.y);
        self.z = self.z.times(rhs.z);
    }

    /// Makes this position the one with each coordinate divided by that of `rhs`, rounded toward zero:
    /// the quotient is kept in `self`.
    pub fn div_assign(&mut self, rhs: Position3D<T>)
        requires
            rhs.x.value() != 0,
            rhs.y.value() != 0,
            rhs.z.value() != 0,
            T::representable(trunc_div(old(self).x.value(), rhs.x.value())),
            T::representable(trunc_div(old(self).y.value(), rhs.y.value())),
            T::representable(trunc_div(old(self).z.value(), rhs.z.value())),
        ensures
            final(self).x.value() == trunc_div(old(self).x.value(), rhs.x.value()),
            final(self).y.value() == trunc_div(old(self).y.value(), rhs.y.value()),
            final(self).z.value() == trunc_div(old(self).z.value(), rhs.z.value()),
    {
        self.x = self.x.divided(rhs.x);
        self.y = self.y.divided(rhs.y);
        self.z = self.z.divided(rhs.z);
    }

    /// The projection of this point on the plane (depth dropped).
    pub fn to_2d(self) -> (r: Position<T>)
        ensures
            r.x == self.x,
            r.y == self.y,
    {
        Position { x: self.x, y: self.y }
    }

    /// The point with every coordinate converted with `as i32`.
    pub fn to_i32(self) -> (r: Position3D<i32>)
        ensures
            r.x as int == wrap_i32(self.x.value()),
            r.y as int == wrap_i32(self.y.value()),
            r.z as int == wrap_i32(self.z.value()),
    {
        Position3D { x: self.x.as_i32(), y: self.y.as_i32(), z: self.z.as_i32() }
    }
}

impl<T: Numeric> Default for Position3D<T> {
    fn default() -> (r: Self)
        ensures
            r.x.value() == 0,
            r.y.value() == 0,
            r.z.value() == 0,
    {
        Self { x: T::zero(), y: T::zero(), z: T::zero() }
    }
}

/// An axis-aligned rectangle.
pub struct Rect<T: Numeric> {
    pub x: T,
    pub y: T,
    pub w: T,
    pub h: T,
}

impl<T: Numeric> Rect<T> {
    /// Width times height.
    pub fn area(&self) -> (r: T)
        requires
            T::representable(self.w.value() * self.h.value()),
        ensures
            r.value() == self.w.value() * self.h.value(),
    {
        self.w.times(self.h)
    }
}

/// An axis-aligned box.
pub struct Rect3D<T: Numeric> {
    pub x: T,
    pub y: T,
    pub z: T,
    pub w: T,
    pub h: T,
    pub d: T,
}

impl<T: Numeric> Rect3D<T> {
    /// Width times height times depth.
    pub fn volume(&self) -> (r: T)
        requires
            T::representable(self.w.value() * self.h.value()),
            T::representable(self.w.value() * self.h.value() * self.d.value()),
        ensures
            r.value() == self.w.value() * self.h.value() * self.d.value(),
    {
        self.w.times(self.h).times(self.d)
    }
}

/// Division rounds toward zero: what is left over, `x - q * d`, has the
/// sign of `x` (or is zero) and is smaller than the divisor in size.
pub proof fn law_trunc_div_rounds_toward_zero(x: int, d: int)
    requires
        d != 0,
    ensures
        ({
            let q = trunc_div(x, d);
            let r = x - q * d;
            &&& x >= 0 ==> r >= 0
            &&& x <= 0 ==> r <= 0
            &&& -d < r < d || d < r < -d
        }),
{
    let q = trunc_div(x, d);
    if x == 0 {
    } else if x > 0 && d > 0 {
        assert(0 <= x - (x / d) * d < d) by (nonlinear_arith)
            requires
                d > 0,
        ;
    } else if x < 0 && d < 0 {
        assert(0 <= (x * -1) - ((x * -1) / (d * -1)) * (d * -1) < d * -1) by (nonlinear_arith)
            requires
                d < 0,
        ;
        assert(x - q * d == -((x * -1) - ((x * -1) / (d * -1)) * (d * -1))) by (nonlinear_arith)
            requires
                q == (x * -1) / (d * -1),
        ;
    } else if x < 0 {
        assert(0 <= (x * -1) - ((x * -1) / d) * d < d) by (nonlinear_arith)
            requires
                d > 0,
        ;
        assert(x - q * d == -((x * -1) - ((x * -1) / d) * d)) by (nonlinear_arith)
            requires
                q == ((x * -1) / d) * -1,
        ;
    } else {
        assert(0 <= x - (x / (d * -1)) * (d * -1) < d * -1) by (nonlinear_arith)
            requires
                d < 0,
        ;
        assert(x - q * d == x - (x / (d * -1)) * (d * -1)) by (nonlinear_arith)
            requires
                q == (x / (d * -1)) * -1,
        ;
    }
}

/// Converting to `i32` keeps a value that fits, lands in the `i32` range,
/// and does not see a difference of 2^32.
pub proof fn law_wrap_i32(v: int)
    ensures
        i32::MIN <= wrap_i32(v) <= i32::MAX,
        i32::MIN <= v <= i32::MAX ==> wrap_i32(v) == v,
        wrap_i32(v + 0x1_0000_0000) == wrap_i32(v),
{
    assert((v + 0x1_0000_0000) % 0x1_0000_0000 == v % 0x1_0000_0000);
}

} // verus!
